use vstd::prelude::*;
use crate::codec::{decode_hex, encode_hex, hex_bytes, hex_text, is_hex_text};
use crate::error::CliError;
use crate::text::{lemma_texts_push, owned, texts, trim_text, trimmed_of};

verus! {

/// The engine's discriminant between ordinary groups and two-party
/// direct-message groups.
#[derive(Debug, Clone, Copy, PartialEq, Eq, Structural)]
pub enum GroupType {
    Group,
    DirectMessage,
}

/// Lifecycle state of a group as the engine reports it.
#[derive(Debug, Clone, Copy, PartialEq, Eq, Structural)]
pub enum GroupState {
    Active,
    Inactive,
    Pending,
}

/// A protocol-level group identifier: an opaque byte string.
#[derive(Debug)]
pub struct GroupId {
    bytes: Vec<u8>,
}

impl View for GroupId {
    type V = Seq<u8>;

    closed spec fn view(&self) -> Seq<u8> {
        self.bytes@
    }
}

impl GroupId {
    pub fn from_slice(b: &[u8]) -> (r: GroupId)
        ensures
            r@ == b@,
    {
        let mut bytes: Vec<u8> = Vec::new();
        let mut i: usize = 0;
        while i < b.len()
            invariant
                i <= b@.len(),
                bytes@ == b@.subrange(0, i as int),
            decreases b@.len() - i,
        {
            bytes.push(b[i]);
            i = i + 1;
            assert(bytes@ =~= b@.subrange(0, i as int));
        }
        assert(b@.subrange(0, b@.len() as int) =~= b@);
        GroupId { bytes }
    }

    pub fn as_slice(&self) -> (r: &[u8])
        ensures
            r@ == self@,
    {
        self.bytes.as_slice()
    }

    pub fn duplicate(&self) -> (r: GroupId)
        ensures
            r@ == self@,
    {
        GroupId::from_slice(self.as_slice())
    }
}

/// A group as the engine hands it over, with identifiers as bytes and keys
/// as hexadecimal text.
pub struct GroupRecord {
    pub mls_group_id: GroupId,
    pub nostr_group_id: Vec<u8>,
    pub name: String,
    pub description: String,
    pub admin_pubkeys: Vec<String>,
    pub last_message_id: Option<String>,
    pub last_message_at: Option<u64>,
    pub group_type: GroupType,
    pub epoch: u64,
    pub state: GroupState,
}

/// A group summary with identifiers rendered as hexadecimal text.
#[derive(Debug, Clone)]
pub struct GroupData {
    pub mls_group_id: String,
    pub nostr_group_id: String,
    pub name: String,
    pub description: String,
    pub admin_pubkeys: Vec<String>,
    pub last_message_id: Option<String>,
    pub last_message_at: Option<u64>,
    pub group_type: GroupType,
    pub epoch: u64,
    pub state: GroupState,
}

impl GroupData {
    pub fn from_group(group: GroupRecord) -> (r: GroupData)
        ensures
            r.mls_group_id@ == hex_text(group.mls_group_id@),
            r.nostr_group_id@ == hex_text(group.nostr_group_id@),
            r.name == group.name,
            r.description == group.description,
            r.admin_pubkeys == group.admin_pubkeys,
            r.last_message_id == group.last_message_id,
            r.last_message_at == group.last_message_at,
            r.group_type == group.group_type,
            r.epoch == group.epoch,
            r.state == group.state,
    {
        GroupData {
            mls_group_id: encode_hex(group.mls_group_id.as_slice()),
            nostr_group_id: encode_hex(group.nostr_group_id.as_slice()),
            name: group.name,
            description: group.description,
            admin_pubkeys: group.admin_pubkeys,
            last_message_id: group.last_message_id,
            last_message_at: group.last_message_at,
            group_type: group.group_type,
            epoch: group.epoch,
            state: group.state,
        }
    }
}

/// A chat message as the engine aggregates it.
#[derive(Debug, Clone)]
pub struct MessageData {
    pub id: String,
    pub pubkey: String,
    pub content: String,
    pub created_at: u64,
    pub is_reply: bool,
    pub reply_to_id: Option<String>,
    pub is_deleted: bool,
    pub kind: u16,
}

/// The last `limit` entries of `messages`, in their original order.
pub open spec fn history_window(messages: Seq<MessageData>, limit: nat) -> Seq<MessageData> {
    let keep = if limit < messages.len() {
        limit as int
    } else {
        messages.len() as int
    };
    messages.subrange(messages.len() - keep, messages.len() as int)
}

/// Whether a member set is exactly the pair `account`, `peer`.
pub open spec fn is_dm_pair(members: Seq<Seq<char>>, account: Seq<char>, peer: Seq<char>) -> bool {
    members.len() == 2 && members.contains(account) && members.contains(peer)
}

/// The identifiers of the direct-message groups among `groups`, in order.
pub open spec fn dm_candidates(groups: Seq<GroupRecord>) -> Seq<Seq<u8>>
    decreases groups.len(),
{
    if groups.len() == 0 {
        Seq::empty()
    } else {
        let rest = dm_candidates(groups.drop_last());
        if groups.last().group_type == GroupType::DirectMessage {
            rest.push(groups.last().mls_group_id@)
        } else {
            rest
        }
    }
}

/// The first index at or after `i` whose member set is the pair.
pub open spec fn first_pair_from(
    members: Seq<Seq<Seq<char>>>,
    account: Seq<char>,
    peer: Seq<char>,
    i: nat,
) -> Option<nat>
    decreases members.len() - i,
{
    if i >= members.len() {
        None
    } else if is_dm_pair(members[i as int], account, peer) {
        Some(i)
    } else {
        first_pair_from(members, account, peer, i + 1)
    }
}

/// The direct-message group for the pair: the first candidate, in engine
/// order, whose member set (`members[k]` for candidate `k`) is the pair.
pub open spec fn dm_match(
    candidates: Seq<Seq<u8>>,
    members: Seq<Seq<Seq<char>>>,
    account: Seq<char>,
    peer: Seq<char>,
) -> Option<Seq<u8>> {
    match first_pair_from(members, account, peer, 0) {
        Some(k) => Some(candidates[k as int]),
        None => None,
    }
}

proof fn lemma_first_pair_skip(
    members: Seq<Seq<Seq<char>>>,
    account: Seq<char>,
    peer: Seq<char>,
    i: nat,
    k: nat,
)
    requires
        i <= k <= members.len(),
        forall|j: int| i <= j < k ==> !is_dm_pair(#[trigger] members[j], account, peer),
    ensures
        first_pair_from(members, account, peer, i) == first_pair_from(members, account, peer, k),
    decreases k - i,
{
    if i < k {
        lemma_first_pair_skip(members, account, peer, i + 1, k);
    }
}

proof fn lemma_first_pair_none(
    members: Seq<Seq<Seq<char>>>,
    account: Seq<char>,
    peer: Seq<char>,
    i: nat,
)
    requires
        first_pair_from(members, account, peer, i) is None,
    ensures
        forall|j: int| i <= j < members.len() ==> !is_dm_pair(#[trigger] members[j], account, peer),
    decreases members.len() - i,
{
    if i < members.len() {
        lemma_first_pair_none(members, account, peer, i + 1);
    }
}

/// What the direct-message lookup needs or has found.
#[derive(Debug)]
pub enum DmStep {
    /// Fetch the member set of this group and hand it to `members_fetched`.
    FetchMembers(GroupId),
    /// This group is the pair's direct-message group.
    Found(GroupId),
    /// None of the account's groups is the pair's direct-message group.
    NotFound,
}

/// The decisions of the direct-message lookup, driven by its caller: the
/// caller fetches the member set of each group that `next_step` names and
/// hands it back with `members_fetched`.
pub struct DmSearch {
    account: String,
    peer: String,
    candidates: Vec<GroupId>,
    answers: Ghost<Seq<Seq<Seq<char>>>>,
    answered: usize,
    matched: bool,
}

impl DmSearch {
    pub closed spec fn account(&self) -> Seq<char> {
        self.account@
    }

    pub closed spec fn peer(&self) -> Seq<char> {
        self.peer@
    }

    /// The direct-message groups to inspect, in engine order.
    pub closed spec fn candidates(&self) -> Seq<Seq<u8>> {
        self.candidates@.map_values(|g: GroupId| g@)
    }

    /// The member sets handed back so far, one per inspected candidate.
    pub closed spec fn answers(&self) -> Seq<Seq<Seq<char>>> {
        self.answers@
    }

    pub closed spec fn wf(&self) -> bool {
        &&& self.answered == self.answers@.len()
        &&& self.answered <= self.candidates@.len()
        &&& self.matched <==> (self.answered > 0 && is_dm_pair(
            self.answers@.last(),
            self.account@,
            self.peer@,
        ))
        &&& forall|j: int|
            0 <= j < self.answers@.len() - 1 ==> !is_dm_pair(
                #[trigger] self.answers@[j],
                self.account@,
                self.peer@,
            )
    }

    /// Whether the lookup has reached its answer.
    pub open spec fn finished(&self) -> bool {
        first_pair_from(self.answers(), self.account(), self.peer(), 0) is Some
            || self.answers().len() >= self.candidates().len()
    }

    /// A lookup for the pair `account`, `peer` among `groups`.
    pub fn new(groups: &Vec<GroupRecord>, account: &str, peer: &str) -> (r: DmSearch)
        ensures
            r.wf(),
            r.candidates() == dm_candidates(groups@),
            r.answers() == Seq::<Seq<Seq<char>>>::empty(),
            r.account() == account@,
            r.peer() == peer@,
    {
        let mut candidates: Vec<GroupId> = Vec::new();
        let mut i: usize = 0;
        while i < groups.len()
            invariant
                i <= groups@.len(),
                candidates@.map_values(|g: GroupId| g@) == dm_candidates(
                    groups@.subrange(0, i as int),
                ),
            decreases groups@.len() - i,
        {
            let ghost before = candidates@;
            let ghost prefix = groups@.subrange(0, i as int + 1);
            assert(prefix.drop_last() =~= groups@.subrange(0, i as int));
            if groups[i].group_type == GroupType::DirectMessage {
                candidates.push(groups[i].mls_group_id.duplicate());
                assert(candidates@.map_values(|g: GroupId| g@) =~= before.map_values(
                    |g: GroupId| g@,
                ).push(groups@[i as int].mls_group_id@));
            }
            i = i + 1;
        }
        assert(groups@.subrange(0, groups@.len() as int) =~= groups@);
        DmSearch {
            account: owned(account),
            peer: owned(peer),
            candidates,
            answers: Ghost(Seq::empty()),
            answered: 0,
            matched: false,
        }
    }

    proof fn lemma_outcome(&self)
        requires
            self.wf(),
        ensures
            first_pair_from(self.answers(), self.account(), self.peer(), 0) == (if self.matched {
                Some((self.answers().len() - 1) as nat)
            } else {
                None::<nat>
            }),
    {
        let ms = self.answers();
        let n = ms.len();
        if n > 0 {
            lemma_first_pair_skip(ms, self.account(), self.peer(), 0, (n - 1) as nat);
            assert(first_pair_from(ms, self.account(), self.peer(), n as nat) is None);
            assert(ms.last() == ms[n - 1]);
        }
    }

    /// The next thing the lookup needs, or its answer.
    pub fn next_step(&self) -> (r: DmStep)
        requires
            self.wf(),
        ensures
            match r {
                DmStep::FetchMembers(id) => !self.finished() && id@ == self.candidates()[self.answers().len() as int],
                DmStep::Found(id) => self.finished() && dm_match(
                    self.candidates(),
                    self.answers(),
                    self.account(),
                    self.peer(),
                ) == Some(id@),
                DmStep::NotFound => self.finished() && dm_match(
                    self.candidates(),
                    self.answers(),
                    self.account(),
                    self.peer(),
                ) is None,
            },
    {
        proof {
            self.lemma_outcome();
        }
        if self.matched {
            DmStep::Found(self.candidates[self.answered - 1].duplicate())
        } else if self.answered < self.candidates.len() {
            DmStep::FetchMembers(self.candidates[self.answered].duplicate())
        } else {
            DmStep::NotFound
        }
    }

    /// Hands back the member set of the group that `next_step` named.
    pub fn members_fetched(&mut self, members: &Vec<String>)
        requires
            old(self).wf(),
            !old(self).finished(),
        ensures
            final(self).wf(),
            final(self).answers() == old(self).answers().push(texts(members@)),
            final(self).candidates() == old(self).candidates(),
            final(self).account() == old(self).account(),
            final(self).peer() == old(self).peer(),
    {
        proof {
            self.lemma_outcome();
        }
        let ghost m = texts(members@);
        assert(self.candidates().len() == self.candidates@.len());
        let total = self.candidates.len();
        assert(self.answered < total);
        let next = self.answered + 1;
        let pair = self.is_pair(members);
        self.answers = Ghost(self.answers@.push(m));
        self.answered = next;
        self.matched = pair;
    }

    fn is_pair(&self, members: &Vec<String>) -> (r: bool)
        ensures
            r == is_dm_pair(texts(members@), self.account@, self.peer@),
    {
        if members.len() != 2 {
            return false;
        }
        let has_account = members[0] == self.account || members[1] == self.account;
        let has_peer = members[0] == self.peer || members[1] == self.peer;
        proof {
            let t = texts(members@);
            if t.contains(self.account@) {
                let j = choose|j: int| 0 <= j < t.len() && t[j] == self.account@;
                assert(j == 0 || j == 1);
            }
            if t.contains(self.peer@) {
                let j = choose|j: int| 0 <= j < t.len() && t[j] == self.peer@;
                assert(j == 0 || j == 1);
            }
            if has_account {
                if members@[0]@ == self.account@ {
                    assert(t[0] == self.account@);
                } else {
                    assert(t[1] == self.account@);
                }
            }
            if has_peer {
                if members@[0]@ == self.peer@ {
                    assert(t[0] == self.peer@);
                } else {
                    assert(t[1] == self.peer@);
                }
            }
        }
        has_account && has_peer
    }
}

/// Once a lookup has finished, its answer is the pair's group under
/// `dm_match`, which depends only on the account's groups, their member sets
/// and the pair: lookups over the same groups and member sets agree.
pub proof fn lemma_dm_lookup_deterministic(search: DmSearch, members: Seq<Seq<Seq<char>>>)
    requires
        search.wf(),
        search.finished(),
        members.len() == search.candidates().len(),
        search.answers() == members.subrange(0, search.answers().len() as int),
    ensures
        dm_match(search.candidates(), search.answers(), search.account(), search.peer())
            == dm_match(search.candidates(), members, search.account(), search.peer()),
{
    let a = search.account();
    let p = search.peer();
    let ms = search.answers();
    let n = ms.len();
    search.lemma_outcome();
    if first_pair_from(ms, a, p, 0) is Some {
        assert forall|j: int| 0 <= j < n - 1 implies !is_dm_pair(#[trigger] members[j], a, p) by {
            assert(members[j] == ms[j]);
        }
        lemma_first_pair_skip(members, a, p, 0, (n - 1) as nat);
        assert(members[n - 1] == ms[n - 1]);
    } else {
        lemma_first_pair_none(ms, a, p, 0);
        assert forall|j: int| 0 <= j < n implies !is_dm_pair(#[trigger] members[j], a, p) by {
            assert(members[j] == ms[j]);
        }
        lemma_first_pair_skip(members, a, p, 0, n as nat);
    }
}

/// Get-or-create is idempotent: when a lookup found no group for the pair and
/// a direct-message group whose member set is the pair was then created (and
/// listed after the others), the next lookup finds exactly that group, so no
/// second group is created.
pub proof fn lemma_dm_get_or_create_idempotent(
    groups: Seq<GroupRecord>,
    members: Seq<Seq<Seq<char>>>,
    created: GroupRecord,
    created_members: Seq<Seq<char>>,
    account: Seq<char>,
    peer: Seq<char>,
)
    requires
        members.len() == dm_candidates(groups).len(),
        dm_match(dm_candidates(groups), members, account, peer) is None,
        created.group_type == GroupType::DirectMessage,
        is_dm_pair(created_members, account, peer),
    ensures
        dm_candidates(groups.push(created)) == dm_candidates(groups).push(created.mls_group_id@),
        dm_match(
            dm_candidates(groups.push(created)),
            members.push(created_members),
            account,
            peer,
        ) == Some(created.mls_group_id@),
{
    assert(groups.push(created).drop_last() =~= groups);
    let all = members.push(created_members);
    let n = members.len();
    lemma_first_pair_none(members, account, peer, 0);
    assert forall|j: int| 0 <= j < n implies !is_dm_pair(#[trigger] all[j], account, peer) by {
        assert(all[j] == members[j]);
    }
    lemma_first_pair_skip(all, account, peer, 0, n as nat);
    assert(all[n as int] == created_members);
}

/// Where a new group's relay list comes from.
#[derive(Debug)]
pub enum GroupRelays {
    /// The account's cached general relays.
    Cached(Vec<String>),
    /// The cache is empty: fetch the account's relay list from the network.
    FetchFromNetwork,
}

/// Picks the account's cached general relays, or the network when the cache is empty.
pub fn select_group_relays(cached: &Vec<String>) -> (r: GroupRelays)
    ensures
        cached@.len() == 0 <==> r is FetchFromNetwork,
        r matches GroupRelays::Cached(v) ==> texts(v@) == texts(cached@),
{
    if cached.len() == 0 {
        GroupRelays::FetchFromNetwork
    } else {
        let v = cached.clone();
        assert(texts(v@) =~= texts(cached@));
        GroupRelays::Cached(v)
    }
}

/// What the engine is asked to create.
#[derive(Debug)]
pub struct GroupPlan {
    pub name: String,
    pub description: String,
    /// Members besides the creator, whom the engine includes by itself.
    pub members: Vec<String>,
    pub admins: Vec<String>,
    pub relays: GroupRelays,
}

/// How a direct-message conversation is resolved.
#[derive(Debug)]
pub enum DmResolution {
    /// The pair already has this group; nothing is created.
    Existing(GroupId),
    /// The pair has no group yet; create this one.
    Create(GroupPlan),
}

/// The display name of a new direct-message group.
pub open spec fn dm_group_name(peer: Seq<char>) -> Seq<char> {
    "DM with "@ + peer.subrange(0, 8)
}

/// The plan of a new direct-message group for the pair.
pub open spec fn is_dm_plan(
    plan: GroupPlan,
    account: Seq<char>,
    peer: Seq<char>,
    cached_relays: Seq<Seq<char>>,
) -> bool {
    &&& plan.name@ == dm_group_name(peer)
    &&& plan.description@ == "Direct message conversation"@
    &&& texts(plan.members@) == seq![peer]
    &&& texts(plan.admins@) == seq![account, peer]
    &&& (cached_relays.len() == 0 <==> plan.relays is FetchFromNetwork)
    &&& (plan.relays matches GroupRelays::Cached(v) ==> texts(v@) == cached_relays)
}

/// Turns the lookup's answer into the use of an existing group or the plan
/// of a new one: administrators are both parties, the member list names the
/// peer alone, and the relays come from the account's cached general list.
pub fn resolve_dm_group(
    found: Option<GroupId>,
    account: &str,
    peer: &str,
    cached_relays: &Vec<String>,
) -> (r: DmResolution)
    requires
        peer@.len() >= 8,
    ensures
        found matches Some(id) ==> (r matches DmResolution::Existing(g) && g@ == id@),
        found is None ==> (r matches DmResolution::Create(plan) && is_dm_plan(
            plan,
            account@,
            peer@,
            texts(cached_relays@),
        )),
{
    match found {
        Some(id) => DmResolution::Existing(id),
        None => {
            let mut name = owned("DM with ");
            name.append(peer.substring_char(0, 8));
            let mut members: Vec<String> = Vec::new();
            members.push(owned(peer));
            let mut admins: Vec<String> = Vec::new();
            admins.push(owned(account));
            admins.push(owned(peer));
            assert(texts(members@) =~= seq![peer@]);
            assert(texts(admins@) =~= seq![account@, peer@]);
            DmResolution::Create(
                GroupPlan {
                    name,
                    description: owned("Direct message conversation"),
                    members,
                    admins,
                    relays: select_group_relays(cached_relays),
                },
            )
        },
    }
}

/// The pieces of a text between commas (one piece for a text without commas).
pub open spec fn split_commas(s: Seq<char>) -> Seq<Seq<char>>
    decreases s.len(),
{
    if s.len() == 0 {
        seq![Seq::<char>::empty()]
    } else {
        let r = split_commas(s.drop_last());
        if s.last() == ',' {
            r.push(Seq::<char>::empty())
        } else {
            r.update(r.len() - 1, r.last().push(s.last()))
        }
    }
}

proof fn lemma_split_nonempty(s: Seq<char>)
    ensures
        split_commas(s).len() >= 1,
    decreases s.len(),
{
    if s.len() > 0 {
        lemma_split_nonempty(s.drop_last());
    }
}

/// The pieces of a comma-separated text, in order.
fn split_on_commas(s: &str) -> (r: Vec<String>)
    ensures
        texts(r@) == split_commas(s@),
{
    let n = s.unicode_len();
    let mut out: Vec<String> = Vec::new();
    let mut start: usize = 0;
    let mut i: usize = 0;
    proof {
        reveal_strlit("");
        assert(s@.subrange(0, 0) =~= Seq::<char>::empty());
        assert(texts(out@).push(s@.subrange(0, 0)) =~= split_commas(s@.subrange(0, 0)));
    }
    while i < n
        invariant
            n == s@.len(),
            start <= i <= n,
            texts(out@).push(s@.subrange(start as int, i as int)) == split_commas(s@.subrange(0, i as int)),
        decreases n - i,
    {
        let ghost prefix = s@.subrange(0, i as int + 1);
        assert(prefix.drop_last() =~= s@.subrange(0, i as int));
        assert(prefix.last() == s@[i as int]);
        proof {
            lemma_split_nonempty(s@.subrange(0, i as int));
        }
        let c = s.get_char(i);
        if c == ',' {
            let piece = owned(s.substring_char(start, i));
            let ghost before = out@;
            out.push(piece);
            proof {
                lemma_texts_push(before, piece);
            }
            start = i + 1;
            i = i + 1;
            assert(s@.subrange(start as int, i as int) =~= Seq::<char>::empty());
        } else {
            i = i + 1;
            assert(s@.subrange(start as int, i as int) =~= s@.subrange(start as int, i as int - 1).push(c));
            assert(texts(out@).push(s@.subrange(start as int, i as int)) =~= split_commas(s@.subrange(0, i as int - 1)).update(
                split_commas(s@.subrange(0, i as int - 1)).len() - 1,
                split_commas(s@.subrange(0, i as int - 1)).last().push(c),
            ));
        }
    }
    let last = owned(s.substring_char(start, n));
    let ghost before = out@;
    out.push(last);
    proof {
        lemma_texts_push(before, last);
    }
    assert(s@.subrange(0, n as int) =~= s@);
    out
}

/// The member keys written as a comma-separated list, each piece with its
/// surrounding whitespace dropped.
pub fn parse_member_list(members: &str) -> (r: Vec<String>)
    ensures
        texts(r@) == split_commas(members@).map_values(|p: Seq<char>| trimmed_of(p)),
{
    let pieces = split_on_commas(members);
    let mut out: Vec<String> = Vec::new();
    let mut i: usize = 0;
    while i < pieces.len()
        invariant
            i <= pieces@.len(),
            texts(pieces@) == split_commas(members@),
            texts(out@) == texts(pieces@).subrange(0, i as int).map_values(|p: Seq<char>| trimmed_of(p)),
        decreases pieces@.len() - i,
    {
        let t = trim_text(pieces[i].as_str());
        let ghost before = out@;
        out.push(t);
        proof {
            lemma_texts_push(before, t);
        }
        i = i + 1;
        assert(texts(out@) =~= texts(pieces@).subrange(0, i as int).map_values(|p: Seq<char>| trimmed_of(p)));
    }
    assert(texts(pieces@).subrange(0, pieces@.len() as int) =~= texts(pieces@));
    out
}

/// The plan of a new multi-party group: the creator administers it, the
/// members are the ones named (the engine adds the creator by itself), the
/// description defaults to empty, and the relays come from the creator's
/// cached general list.
pub fn plan_group(
    creator: &str,
    members: Vec<String>,
    name: String,
    description: Option<String>,
    cached_relays: &Vec<String>,
) -> (r: GroupPlan)
    ensures
        r.name == name,
        r.description@ == match description {
            Some(d) => d@,
            None => Seq::<char>::empty(),
        },
        r.members == members,
        texts(r.admins@) == seq![creator@],
        cached_relays@.len() == 0 <==> r.relays is FetchFromNetwork,
        r.relays matches GroupRelays::Cached(v) ==> texts(v@) == texts(cached_relays@),
{
    let mut admins: Vec<String> = Vec::new();
    admins.push(owned(creator));
    assert(texts(admins@) =~= seq![creator@]);
    let description = match description {
        Some(d) => d,
        None => String::new(),
    };
    GroupPlan { name, description, members, admins, relays: select_group_relays(cached_relays) }
}

/// Holds the snapshot of the account's groups taken by the last listing.
pub struct GroupManager {
    current_groups: Vec<GroupData>,
}

impl GroupManager {
    pub closed spec fn groups(&self) -> Seq<GroupData> {
        self.current_groups@
    }

    pub fn new() -> (r: Self)
        ensures
            r.groups() == Seq::<GroupData>::empty(),
    {
        GroupManager { current_groups: Vec::new() }
    }

    pub fn get_groups(&self) -> (r: &[GroupData])
        ensures
            r@ == self.groups(),
    {
        self.current_groups.as_slice()
    }

    /// Replaces the snapshot with a fresh listing from the engine.
    pub fn refresh_groups(&mut self, groups: Vec<GroupData>)
        ensures
            final(self).groups() == groups@,
    {
        self.current_groups = groups;
    }

    /// Adds a group that the engine has just created to the snapshot.
    pub fn record_created(&mut self, group: GroupData)
        ensures
            final(self).groups() == old(self).groups().push(group),
    {
        self.current_groups.push(group);
    }

    /// Parses the hexadecimal text of a group identifier.
    pub fn group_id_from_string(group_id_str: &str) -> (r: Result<GroupId, CliError>)
        ensures
            r is Ok <==> is_hex_text(group_id_str@),
            r matches Ok(id) ==> id@ == hex_bytes(group_id_str@),
            r matches Err(e) ==> e.is_validation(),
    {
        match decode_hex(group_id_str) {
            Ok(bytes) => Ok(GroupId::from_slice(bytes.as_slice())),
            Err(_) => Err(CliError::Validation(owned("Failed to decode group ID"))),
        }
    }

    /// Renders a group identifier as lowercase hexadecimal text.
    pub fn group_id_to_string(group_id: &GroupId) -> (r: String)
        ensures
            r@ == hex_text(group_id@),
    {
        encode_hex(group_id.as_slice())
    }

    /// The chronologically last `limit` messages of a conversation, in their
    /// original (ascending) order; all of them when there are fewer.
    pub fn fetch_history(messages: Vec<MessageData>, limit: usize) -> (r: Vec<MessageData>)
        ensures
            r@ == history_window(messages@, limit as nat),
            r@.len() == if limit < messages@.len() { limit as int } else { messages@.len() as int },
    {
        let mut all = messages;
        let n = all.len();
        let keep = if limit < n { limit } else { n };
        all.split_off(n - keep)
    }
}

} // verus!
