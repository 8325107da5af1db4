use vstd::prelude::*;
use crate::error::CliError;
use crate::text::{has_prefix, lemma_texts_push, owned, texts};

verus! {

/// The role a relay plays for an account.
#[derive(Debug, Clone, Copy, PartialEq, Eq, Structural)]
pub enum RelayType {
    /// General-purpose relays (the account's relay list).
    Nostr,
    /// Relays where the account receives messages.
    Inbox,
    /// Relays where the account's key packages are published.
    KeyPackage,
}

/// Whether a string parses as a URL under the `url` crate's parser.
pub uninterp spec fn parses_as_url(s: Seq<char>) -> bool;

/// Relies on `url::Url::parse`: whether the text is a well-formed URL.
#[verifier::external_body]
pub(crate) fn url_parses(s: &str) -> (r: bool)
    ensures
        r == parses_as_url(s@),
{
    url::Url::parse(s).is_ok()
}

/// A relay URL is admissible when it parses as a URL and uses a websocket scheme.
pub open spec fn admissible(url: Seq<char>) -> bool {
    &&& parses_as_url(url)
    &&& ("ws://"@.is_prefix_of(url) || "wss://"@.is_prefix_of(url))
}

pub open spec fn all_admissible(urls: Seq<Seq<char>>) -> bool {
    forall|i: int| 0 <= i < urls.len() ==> admissible(#[trigger] urls[i])
}

/// Endpoints that are known to be unreachable or noisy.
pub open spec fn denied(url: Seq<char>) -> bool {
    url == "wss://purplepag.es"@ || url == "wss://relay.purplepag.es"@
}

/// A role list with every deny-listed endpoint taken out, order kept.
pub open spec fn without_denied(urls: Seq<Seq<char>>) -> Seq<Seq<char>> {
    urls.filter(|u: Seq<char>| !denied(u))
}

/// A role list with every occurrence of `url` taken out, order kept.
pub open spec fn without_url(urls: Seq<Seq<char>>, url: Seq<char>) -> Seq<Seq<char>> {
    urls.filter(|u: Seq<char>| u != url)
}

/// What adding `url` to a role list gives: `None` when it is refused,
/// the list itself when the URL is already there, else the list with the URL appended.
pub open spec fn add_outcome(urls: Seq<Seq<char>>, url: Seq<char>) -> Option<Seq<Seq<char>>> {
    if !admissible(url) {
        None
    } else if urls.contains(url) {
        Some(urls)
    } else if all_admissible(urls.push(url)) {
        Some(urls.push(url))
    } else {
        None
    }
}

/// What removing `url` from a role list gives: `None` when the remainder is refused.
pub open spec fn remove_outcome(urls: Seq<Seq<char>>, url: Seq<char>) -> Option<Seq<Seq<char>>> {
    if all_admissible(without_url(urls, url)) {
        Some(without_url(urls, url))
    } else {
        None
    }
}

/// Cleaning a role list removes exactly the deny-listed URLs: a URL stays
/// if and only if it was there and is not denied, and the remainder keeps its
/// relative order, in that cleaning a concatenation cleans each part in place.
pub proof fn lemma_cleanup_removes_exactly_denied(urls: Seq<Seq<char>>)
    ensures
        forall|u: Seq<char>| #[trigger]
            without_denied(urls).contains(u) <==> (urls.contains(u) && !denied(u)),
        forall|a: Seq<Seq<char>>, b: Seq<Seq<char>>|
            urls == a + b ==> without_denied(urls) == #[trigger] without_denied(a) + #[trigger] without_denied(b),
{
    let p = |u: Seq<char>| !denied(u);
    assert forall|u: Seq<char>| #[trigger]
        without_denied(urls).contains(u) <==> (urls.contains(u) && !denied(u)) by {
        if without_denied(urls).contains(u) {
            urls.lemma_filter_contains_rev(p, u);
            let j = choose|j: int| 0 <= j < urls.filter(p).len() && urls.filter(p)[j] == u;
            urls.lemma_filter_pred(p, j);
        }
        if urls.contains(u) && !denied(u) {
            let j = choose|j: int| 0 <= j < urls.len() && urls[j] == u;
            urls.lemma_filter_contains(p, j);
        }
    }
    assert forall|a: Seq<Seq<char>>, b: Seq<Seq<char>>|
        urls == a + b implies without_denied(urls) == #[trigger] without_denied(a) + #[trigger] without_denied(b) by {
        Seq::filter_distributes_over_add(a, b, p);
    }
}

/// Adding the same relay URL a second time leaves the list as the first
/// addition left it, and succeeds.
pub proof fn lemma_add_relay_idempotent(urls: Seq<Seq<char>>, url: Seq<char>)
    requires
        add_outcome(urls, url) is Some,
    ensures
        add_outcome(add_outcome(urls, url)->0, url) == add_outcome(urls, url),
{
    if !urls.contains(url) {
        assert(urls.push(url)[urls.len() as int] == url);
    }
}

/// Three ordered lists of relay URLs, one per role.
#[derive(Debug, Clone)]
pub struct RelayConfig {
    pub nostr_relays: Vec<String>,
    pub inbox_relays: Vec<String>,
    pub key_package_relays: Vec<String>,
}

impl RelayConfig {
    /// The list held for a role.
    pub open spec fn role(&self, t: RelayType) -> Seq<Seq<char>> {
        match t {
            RelayType::Nostr => texts(self.nostr_relays@),
            RelayType::Inbox => texts(self.inbox_relays@),
            RelayType::KeyPackage => texts(self.key_package_relays@),
        }
    }
}

pub open spec fn default_nostr() -> Seq<Seq<char>> {
    seq![
        "ws://localhost:10547"@,
        "wss://relay.damus.io"@,
        "wss://relay.primal.net"@,
        "wss://nos.lol"@,
        "wss://relay.nostr.net"@,
    ]
}

pub open spec fn default_inbox() -> Seq<Seq<char>> {
    seq![
        "ws://localhost:10547"@,
        "wss://relay.damus.io"@,
        "wss://relay.primal.net"@,
        "wss://relay.nostr.net"@,
    ]
}

pub open spec fn default_key_package() -> Seq<Seq<char>> {
    seq![
        "ws://localhost:10547"@,
        "wss://relay.damus.io"@,
        "wss://nos.lol"@,
        "wss://relay.nostr.net"@,
    ]
}

fn string_list_of(a: &str, b: &str, c: &str, d: &str) -> (r: Vec<String>)
    ensures
        texts(r@) == seq![a@, b@, c@, d@],
{
    let mut v: Vec<String> = Vec::new();
    v.push(owned(a));
    v.push(owned(b));
    v.push(owned(c));
    v.push(owned(d));
    assert(texts(v@) =~= seq![a@, b@, c@, d@]);
    v
}

impl Default for RelayConfig {
    fn default() -> (r: Self)
        ensures
            r.role(RelayType::Nostr) == default_nostr(),
            r.role(RelayType::Inbox) == default_inbox(),
            r.role(RelayType::KeyPackage) == default_key_package(),
    {
        let mut nostr = string_list_of(
            "ws://localhost:10547",
            "wss://relay.damus.io",
            "wss://relay.primal.net",
            "wss://nos.lol",
        );
        let ghost first = nostr@;
        let last = owned("wss://relay.nostr.net");
        nostr.push(last);
        proof {
            lemma_texts_push(first, last);
        }
        let inbox = string_list_of(
            "ws://localhost:10547",
            "wss://relay.damus.io",
            "wss://relay.primal.net",
            "wss://relay.nostr.net",
        );
        let key_package = string_list_of(
            "ws://localhost:10547",
            "wss://relay.damus.io",
            "wss://nos.lol",
            "wss://relay.nostr.net",
        );
        let r = RelayConfig { nostr_relays: nostr, inbox_relays: inbox, key_package_relays: key_package };
        assert(r.role(RelayType::Nostr) =~= default_nostr());
        r
    }
}

pub open spec fn default_role(t: RelayType) -> Seq<Seq<char>> {
    match t {
        RelayType::Nostr => default_nostr(),
        RelayType::Inbox => default_inbox(),
        RelayType::KeyPackage => default_key_package(),
    }
}

pub open spec fn role_label(t: RelayType) -> Seq<char> {
    match t {
        RelayType::Nostr => "Nostr"@,
        RelayType::Inbox => "Inbox"@,
        RelayType::KeyPackage => "KeyPackage"@,
    }
}

/// The lists a newly created account starts with, per role.
pub open spec fn account_default(t: RelayType) -> Seq<Seq<char>> {
    match t {
        RelayType::Nostr => seq!["wss://relay.damus.io"@, "wss://relay.primal.net"@, "wss://nos.lol"@],
        RelayType::Inbox => seq!["wss://relay.damus.io"@, "wss://relay.primal.net"@],
        RelayType::KeyPackage => seq!["wss://relay.damus.io"@, "wss://nos.lol"@],
    }
}

fn account_default_list(t: RelayType) -> (r: Vec<String>)
    ensures
        texts(r@) == account_default(t),
{
    let mut v: Vec<String> = Vec::new();
    v.push(owned("wss://relay.damus.io"));
    match t {
        RelayType::Nostr => {
            v.push(owned("wss://relay.primal.net"));
            v.push(owned("wss://nos.lol"));
        },
        RelayType::Inbox => {
            v.push(owned("wss://relay.primal.net"));
        },
        RelayType::KeyPackage => {
            v.push(owned("wss://nos.lol"));
        },
    }
    assert(texts(v@) =~= account_default(t));
    v
}

/// What a successful relay-list write reached. The engine offers no general
/// relay-update primitive, so a write reaches the local cache only, and the
/// caller is told so.
#[derive(Debug, Clone, Copy, PartialEq, Eq, Structural)]
pub enum RelayWrite {
    LocalOnly,
}

/// Keeps the local cache of the three relay lists and the rules for changing them.
pub struct RelayManager {
    config: RelayConfig,
}

/// The entries of `list` other than `drop_a` and `drop_b`, in their order.
fn kept(list: &Vec<String>, drop_a: &String, drop_b: &String) -> (r: Vec<String>)
    ensures
        texts(r@) == texts(list@).filter(|u: Seq<char>| u != drop_a@ && u != drop_b@),
{
    let ghost p = |u: Seq<char>| u != drop_a@ && u != drop_b@;
    let mut out: Vec<String> = Vec::new();
    let mut i: usize = 0;
    proof {
        reveal(Seq::filter);
        assert(texts(out@) =~= texts(list@).subrange(0, 0).filter(p));
    }
    while i < list.len()
        invariant
            i <= list.len(),
            p == (|u: Seq<char>| u != drop_a@ && u != drop_b@),
            texts(out@) == texts(list@).subrange(0, i as int).filter(p),
        decreases list.len() - i,
    {
        let ghost before = out@;
        let ghost prefix = texts(list@).subrange(0, i as int + 1);
        assert(prefix.drop_last() =~= texts(list@).subrange(0, i as int));
        let u = &list[i];
        assert(prefix.last() == u@);
        reveal(Seq::filter);
        assert(prefix.filter(p) == (if p(prefix.last()) {
            prefix.drop_last().filter(p).push(prefix.last())
        } else {
            prefix.drop_last().filter(p)
        }));
        if !(*u == *drop_a) && !(*u == *drop_b) {
            let c = u.clone();
            out.push(c);
            proof {
                lemma_texts_push(before, c);
            }
        }
        i = i + 1;
    }
    assert(texts(list@).subrange(0, list@.len() as int) =~= texts(list@));
    out
}

/// Whether `list` holds `url`.
fn holds(list: &Vec<String>, url: &String) -> (r: bool)
    ensures
        r == texts(list@).contains(url@),
{
    let mut i: usize = 0;
    while i < list.len()
        invariant
            i <= list.len(),
            forall|j: int| 0 <= j < i ==> list@[j]@ != url@,
        decreases list.len() - i,
    {
        if list[i] == *url {
            assert(texts(list@)[i as int] == url@);
            return true;
        }
        i = i + 1;
    }
    proof {
        if texts(list@).contains(url@) {
            let j = choose|j: int| 0 <= j < texts(list@).len() && texts(list@)[j] == url@;
            assert(list@[j]@ == url@);
        }
    }
    false
}

impl RelayManager {
    /// The cached list for a role.
    pub closed spec fn relays(&self, t: RelayType) -> Seq<Seq<char>> {
        self.config.role(t)
    }

    /// A manager whose cache holds the built-in default lists.
    pub fn new() -> (r: Self)
        ensures
            forall|t: RelayType| r.relays(t) == default_role(t),
    {
        RelayManager { config: RelayConfig::default() }
    }

    pub fn get_config(&self) -> (r: &RelayConfig)
        ensures
            forall|t: RelayType| r.role(t) == self.relays(t),
    {
        &self.config
    }

    pub fn get_relays_for_type(&self, relay_type: &RelayType) -> (r: &Vec<String>)
        ensures
            texts(r@) == self.relays(*relay_type),
    {
        match relay_type {
            RelayType::Nostr => &self.config.nostr_relays,
            RelayType::Inbox => &self.config.inbox_relays,
            RelayType::KeyPackage => &self.config.key_package_relays,
        }
    }

    pub fn relay_type_name(&self, relay_type: &RelayType) -> (r: &'static str)
        ensures
            r@ == role_label(*relay_type),
    {
        match relay_type {
            RelayType::Nostr => "Nostr",
            RelayType::Inbox => "Inbox",
            RelayType::KeyPackage => "KeyPackage",
        }
    }

    pub fn all_relay_types() -> (r: Vec<RelayType>)
        ensures
            r@ == seq![RelayType::Nostr, RelayType::Inbox, RelayType::KeyPackage],
    {
        let mut v: Vec<RelayType> = Vec::new();
        v.push(RelayType::Nostr);
        v.push(RelayType::Inbox);
        v.push(RelayType::KeyPackage);
        assert(v@ =~= seq![RelayType::Nostr, RelayType::Inbox, RelayType::KeyPackage]);
        v
    }

    /// A syntactic admission check: the URL parses and uses `ws://` or
    /// `wss://`. No connection is opened.
    pub fn test_relay_connection(&self, relay_url: &str) -> (r: bool)
        ensures
            r == admissible(relay_url@),
    {
        if !url_parses(relay_url) {
            return false;
        }
        has_prefix(relay_url, "ws://") || has_prefix(relay_url, "wss://")
    }

    fn set_role(&mut self, relay_type: RelayType, relays: Vec<String>)
        ensures
            final(self).relays(relay_type) == texts(relays@),
            forall|u: RelayType| u != relay_type ==> final(self).relays(u) == old(self).relays(u),
    {
        match relay_type {
            RelayType::Nostr => self.config.nostr_relays = relays,
            RelayType::Inbox => self.config.inbox_relays = relays,
            RelayType::KeyPackage => self.config.key_package_relays = relays,
        }
    }

    /// Replaces the cached list of a role once every URL in `relays` is
    /// admissible; on the first inadmissible one nothing changes.
    pub fn update_relays(&mut self, relay_type: RelayType, relays: Vec<String>) -> (r: Result<
        RelayWrite,
        CliError,
    >)
        ensures
            r is Ok <==> all_admissible(texts(relays@)),
            r is Ok ==> final(self).relays(relay_type) == texts(relays@),
            r is Err ==> r->Err_0.is_validation() && final(self).relays(relay_type) == old(
                self,
            ).relays(relay_type),
            forall|u: RelayType| u != relay_type ==> final(self).relays(u) == old(self).relays(u),
    {
        let mut i: usize = 0;
        while i < relays.len()
            invariant
                i <= relays.len(),
                forall|j: int| 0 <= j < i ==> admissible(#[trigger] texts(relays@)[j]),
            decreases relays.len() - i,
        {
            if !self.test_relay_connection(relays[i].as_str()) {
                assert(!admissible(texts(relays@)[i as int]));
                let mut m = owned("Invalid relay URL: ");
                m.append(relays[i].as_str());
                return Err(CliError::Validation(m));
            }
            i = i + 1;
        }
        self.set_role(relay_type, relays);
        Ok(RelayWrite::LocalOnly)
    }

    /// Adds `relay_url` to a role unless it is already there.
    pub fn add_relay_to_type(&mut self, relay_type: RelayType, relay_url: String) -> (r: Result<
        (),
        CliError,
    >)
        ensures
            r is Ok <==> add_outcome(old(self).relays(relay_type), relay_url@) is Some,
            r is Ok ==> final(self).relays(relay_type) == add_outcome(
                old(self).relays(relay_type),
                relay_url@,
            )->0,
            r is Err ==> r->Err_0.is_validation() && final(self).relays(relay_type) == old(
                self,
            ).relays(relay_type),
            forall|u: RelayType| u != relay_type ==> final(self).relays(u) == old(self).relays(u),
    {
        if !self.test_relay_connection(relay_url.as_str()) {
            return Err(CliError::Validation(owned("Invalid relay URL or connection failed")));
        }
        let existing = self.get_relays_for_type(&relay_type);
        let mut current = existing.clone();
        assert(texts(current@) =~= texts(existing@));
        if !holds(&current, &relay_url) {
            let ghost before = current@;
            let ghost added = relay_url;
            current.push(relay_url);
            proof {
                lemma_texts_push(before, added);
            }
            match self.update_relays(relay_type, current) {
                Ok(_) => {},
                Err(e) => {
                    return Err(e);
                },
            }
        }
        Ok(())
    }

    /// Takes every occurrence of `relay_url` out of a role.
    pub fn remove_relay_from_type(&mut self, relay_type: RelayType, relay_url: &str) -> (r: Result<
        (),
        CliError,
    >)
        ensures
            r is Ok <==> remove_outcome(old(self).relays(relay_type), relay_url@) is Some,
            r is Ok ==> final(self).relays(relay_type) == remove_outcome(
                old(self).relays(relay_type),
                relay_url@,
            )->0,
            r is Err ==> r->Err_0.is_validation() && final(self).relays(relay_type) == old(
                self,
            ).relays(relay_type),
            forall|u: RelayType| u != relay_type ==> final(self).relays(u) == old(self).relays(u),
    {
        let target = owned(relay_url);
        let current = kept(self.get_relays_for_type(&relay_type), &target, &target);
        proof {
            let p1 = |u: Seq<char>| u != target@ && u != target@;
            let p2 = |u: Seq<char>| u != relay_url@;
            assert(p1 =~= p2);
        }
        assert(texts(current@) =~= without_url(self.relays(relay_type), relay_url@));
        match self.update_relays(relay_type, current) {
            Ok(_) => Ok(()),
            Err(e) => Err(e),
        }
    }

    /// Gives a newly created account's cache the default list of each role
    /// (a role whose defaults are refused keeps its list; the step is
    /// advisory), then takes the deny-listed endpoints out.
    pub fn setup_default_relays(&mut self)
        ensures
            forall|t: RelayType| #[trigger] final(self).relays(t) == without_denied(
                if all_admissible(account_default(t)) {
                    account_default(t)
                } else {
                    old(self).relays(t)
                },
            ),
    {
        let ghost start = *self;
        let _ = self.update_relays(RelayType::Nostr, account_default_list(RelayType::Nostr));
        let _ = self.update_relays(RelayType::Inbox, account_default_list(RelayType::Inbox));
        let _ = self.update_relays(RelayType::KeyPackage, account_default_list(RelayType::KeyPackage));
        let ghost mid = *self;
        assert forall|t: RelayType| #[trigger] mid.relays(t) == (if all_admissible(account_default(t)) {
            account_default(t)
        } else {
            start.relays(t)
        }) by {}
        self.cleanup_unwanted_relays();
    }

    /// Takes the deny-listed endpoints out of all three roles, keeping the
    /// order of what remains.
    pub fn cleanup_unwanted_relays(&mut self)
        ensures
            forall|t: RelayType| final(self).relays(t) == without_denied(old(self).relays(t)),
    {
        let a = owned("wss://purplepag.es");
        let b = owned("wss://relay.purplepag.es");
        let nostr = kept(&self.config.nostr_relays, &a, &b);
        let inbox = kept(&self.config.inbox_relays, &a, &b);
        let key_package = kept(&self.config.key_package_relays, &a, &b);
        proof {
            let p1 = |u: Seq<char>| u != a@ && u != b@;
            let p2 = |u: Seq<char>| !denied(u);
            assert(p1 =~= p2);
        }
        self.config.nostr_relays = nostr;
        self.config.inbox_relays = inbox;
        self.config.key_package_relays = key_package;
    }
}

} // verus!
