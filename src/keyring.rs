use vstd::prelude::*;
use vstd::utf8::{decode_utf8, encode_utf8, valid_utf8, encode_utf8_decode_utf8, encode_utf8_valid_utf8};
use crate::codec::{base64_decoding, base64_of, decode_base64, encode_base64};
use crate::error::CliError;
use crate::text::owned;

verus! {

#[verifier::external_type_specification]
#[verifier::external_body]
pub struct ExFromUtf8Error(std::string::FromUtf8Error);

/// Relies on `String::from_utf8`: it accepts exactly valid UTF-8 and returns
/// the text it encodes.
#[verifier::external_body]
fn utf8_text(b: Vec<u8>) -> (r: Result<String, std::string::FromUtf8Error>)
    ensures
        r is Ok <==> valid_utf8(b@),
        r matches Ok(s) ==> s@ == decode_utf8(b@),
{
    String::from_utf8(b)
}

/// The fixed obfuscation key, the bytes of `WhiteNoiseCLI2024`.
pub open spec fn obfuscation_key() -> Seq<u8> {
    seq![87u8, 104, 105, 116, 101, 78, 111, 105, 115, 101, 67, 76, 73, 50, 48, 50, 52]
}

/// Each byte combined by exclusive or with the key, repeated as needed.
pub open spec fn xor_with_key(b: Seq<u8>) -> Seq<u8> {
    Seq::new(b.len(), |i: int| b[i] ^ obfuscation_key()[i % 17])
}

/// The stored form of a private credential.
pub open spec fn obfuscated(secret: Seq<char>) -> Seq<char> {
    base64_of(xor_with_key(encode_utf8(secret)))
}

/// What a stored form gives back, when it is well formed.
pub open spec fn revealed(stored: Seq<char>) -> Option<Seq<char>> {
    match base64_decoding(stored) {
        Some(b) => if valid_utf8(xor_with_key(b)) {
            Some(decode_utf8(xor_with_key(b)))
        } else {
            None
        },
        None => None,
    }
}

fn key_bytes() -> (r: Vec<u8>)
    ensures
        r@ == obfuscation_key(),
{
    let r: Vec<u8> = vec![87u8, 104, 105, 116, 101, 78, 111, 105, 115, 101, 67, 76, 73, 50, 48, 50, 52];
    assert(r@ =~= obfuscation_key());
    r
}

fn xor_bytes(b: &[u8]) -> (r: Vec<u8>)
    ensures
        r@ == xor_with_key(b@),
{
    let key = key_bytes();
    let mut out: Vec<u8> = Vec::new();
    let mut i: usize = 0;
    while i < b.len()
        invariant
            i <= b@.len(),
            key@ == obfuscation_key(),
            out@ == xor_with_key(b@).subrange(0, i as int),
        decreases b@.len() - i,
    {
        out.push(b[i] ^ key[i % 17]);
        i = i + 1;
        assert(out@ =~= xor_with_key(b@).subrange(0, i as int));
    }
    assert(xor_with_key(b@).subrange(0, b@.len() as int) =~= xor_with_key(b@));
    out
}

/// Combining with the key twice gives the bytes back.
pub proof fn lemma_xor_involution(b: Seq<u8>)
    ensures
        xor_with_key(xor_with_key(b)) == b,
{
    assert forall|i: int| 0 <= i < b.len() implies #[trigger] xor_with_key(xor_with_key(b))[i] == b[i] by {
        let x = b[i];
        let k = obfuscation_key()[i % 17];
        assert((x ^ k) ^ k == x) by (bit_vector);
    }
    assert(xor_with_key(xor_with_key(b)) =~= b);
}

/// The store that entries make when put in order, a later entry replacing
/// an earlier one under the same public key.
pub open spec fn entries_map(entries: Seq<KeyEntry>) -> Map<Seq<char>, Seq<char>>
    decreases entries.len(),
{
    if entries.len() == 0 {
        Map::empty()
    } else {
        entries_map(entries.drop_last()).insert(entries.last().pubkey@, entries.last().obfuscated@)
    }
}

/// A stored credential under the public key it belongs to.
#[derive(Debug)]
pub struct KeyEntry {
    pub pubkey: String,
    pub obfuscated: String,
}

/// The local fallback store of private credentials, keyed by public key,
/// each held obfuscated (exclusive or with a fixed key, then base64).
pub struct KeyringHelper {
    version: u32,
    entries: Vec<KeyEntry>,
}

impl KeyringHelper {
    /// The stored form under each public key.
    pub closed spec fn store(&self) -> Map<Seq<char>, Seq<char>> {
        Map::new(
            |k: Seq<char>| exists|i: int| 0 <= i < self.entries@.len() && self.entries@[i].pubkey@ == k,
            |k: Seq<char>| self.entries@[choose|i: int| 0 <= i < self.entries@.len() && self.entries@[i].pubkey@ == k].obfuscated@,
        )
    }

    pub closed spec fn wf(&self) -> bool {
        forall|i: int, j: int|
            0 <= i < self.entries@.len() && 0 <= j < self.entries@.len() && i != j ==> #[trigger] self.entries@[i].pubkey@ != #[trigger] self.entries@[j].pubkey@
    }

    pub closed spec fn version(&self) -> u32 {
        self.version
    }

    /// An empty store of the current format version.
    pub fn new() -> (r: Self)
        ensures
            r.wf(),
            r.store() == Map::<Seq<char>, Seq<char>>::empty(),
            r.version() == 1,
    {
        let r = KeyringHelper { version: 1, entries: Vec::new() };
        assert(r.store() =~= Map::<Seq<char>, Seq<char>>::empty());
        r
    }

    proof fn lemma_store_at(&self, i: int)
        requires
            self.wf(),
            0 <= i < self.entries@.len(),
        ensures
            self.store().contains_key(self.entries@[i].pubkey@),
            self.store()[self.entries@[i].pubkey@] == self.entries@[i].obfuscated@,
    {
        let k = self.entries@[i].pubkey@;
        assert(self.store().dom().contains(k));
        let j = choose|j: int| 0 <= j < self.entries@.len() && self.entries@[j].pubkey@ == k;
        assert(i == j);
    }

    proof fn lemma_store_value(&self, k: Seq<char>)
        requires
            self.wf(),
            self.store().contains_key(k),
        ensures
            exists|i: int| 0 <= i < self.entries@.len() && self.entries@[i].pubkey@ == k
                && self.store()[k] == self.entries@[i].obfuscated@,
    {
        let j = choose|j: int| 0 <= j < self.entries@.len() && self.entries@[j].pubkey@ == k;
        self.lemma_store_at(j);
    }

    /// The position of the entry for `pubkey`.
    fn position(&self, pubkey: &String) -> (r: Option<usize>)
        requires
            self.wf(),
        ensures
            r is Some <==> self.store().contains_key(pubkey@),
            r matches Some(i) ==> i < self.entries@.len() && self.entries@[i as int].pubkey@ == pubkey@,
    {
        let mut i: usize = 0;
        while i < self.entries.len()
            invariant
                i <= self.entries@.len(),
                forall|j: int| 0 <= j < i ==> self.entries@[j].pubkey@ != pubkey@,
            decreases self.entries@.len() - i,
        {
            if self.entries[i].pubkey == *pubkey {
                return Some(i);
            }
            i = i + 1;
        }
        proof {
            if self.store().contains_key(pubkey@) {
                let j = choose|j: int| 0 <= j < self.entries@.len() && self.entries@[j].pubkey@ == pubkey@;
                assert(self.entries@[j].pubkey@ != pubkey@);
            }
        }
        None
    }

    /// Stores a private credential, obfuscated, under its public key,
    /// replacing what was stored there before.
    pub fn store_key(&mut self, pubkey: &str, privkey: &str)
        requires
            old(self).wf(),
        ensures
            final(self).wf(),
            final(self).version() == old(self).version(),
            final(self).store() == old(self).store().insert(pubkey@, obfuscated(privkey@)),
    {
        let stored = self.obfuscate(privkey);
        self.put(KeyEntry { pubkey: owned(pubkey), obfuscated: stored });
    }

    /// The private credential stored under `pubkey`: `None` when there is
    /// none, an error when its stored form is damaged.
    pub fn get_key(&self, pubkey: &str) -> (r: Result<Option<String>, CliError>)
        requires
            self.wf(),
        ensures
            !self.store().contains_key(pubkey@) ==> r == Ok::<Option<String>, CliError>(None),
            self.store().contains_key(pubkey@) ==> {
                &&& (r is Ok <==> revealed(self.store()[pubkey@]) is Some)
                &&& (r matches Ok(found) ==> found matches Some(s) && s@ == revealed(self.store()[pubkey@])->0)
            },
    {
        let key = owned(pubkey);
        match self.position(&key) {
            None => Ok(None),
            Some(i) => {
                proof {
                    self.lemma_store_at(i as int);
                }
                match self.deobfuscate(self.entries[i].obfuscated.as_str()) {
                    Ok(s) => Ok(Some(s)),
                    Err(e) => Err(e),
                }
            },
        }
    }

    /// The public keys that have a stored credential, each once.
    pub fn list_keys(&self) -> (r: Vec<String>)
        requires
            self.wf(),
        ensures
            r@.len() == self.store().len(),
            forall|k: Seq<char>| #[trigger] self.store().contains_key(k) <==> exists|i: int| 0 <= i < r@.len() && r@[i]@ == k,
            forall|i: int, j: int| 0 <= i < r@.len() && 0 <= j < r@.len() && i != j ==> #[trigger] r@[i]@ != #[trigger] r@[j]@,
    {
        let mut out: Vec<String> = Vec::new();
        let mut i: usize = 0;
        while i < self.entries.len()
            invariant
                i <= self.entries@.len(),
                out@.len() == i,
                forall|j: int| 0 <= j < i ==> #[trigger] out@[j]@ == self.entries@[j].pubkey@,
            decreases self.entries@.len() - i,
        {
            out.push(self.entries[i].pubkey.clone());
            i = i + 1;
        }
        proof {
            assert forall|k: Seq<char>| #[trigger] self.store().contains_key(k) <==> exists|i: int| 0 <= i < out@.len() && out@[i]@ == k by {
                if self.store().contains_key(k) {
                    self.lemma_store_value(k);
                    let i = choose|i: int| 0 <= i < self.entries@.len() && self.entries@[i].pubkey@ == k && self.store()[k] == self.entries@[i].obfuscated@;
                    assert(out@[i]@ == k);
                }
                if exists|i: int| 0 <= i < out@.len() && out@[i]@ == k {
                    let i = choose|i: int| 0 <= i < out@.len() && out@[i]@ == k;
                    self.lemma_store_at(i);
                }
            }
            assert forall|a: int, b: int| 0 <= a < out@.len() && 0 <= b < out@.len() && a != b implies #[trigger] out@[a]@ != #[trigger] out@[b]@ by {
                assert(self.entries@[a].pubkey@ != self.entries@[b].pubkey@);
            }
            let keys = Seq::new(out@.len(), |i: int| out@[i]@);
            assert(keys.no_duplicates());
            assert forall|k: Seq<char>| self.store().dom().contains(k) <==> #[trigger] keys.to_set().contains(k) by {
                if self.store().contains_key(k) {
                    let i = choose|i: int| 0 <= i < out@.len() && out@[i]@ == k;
                    assert(keys[i] == k);
                }
                if keys.contains(k) {
                    let i = choose|i: int| 0 <= i < keys.len() && keys[i] == k;
                    assert(out@[i]@ == k);
                }
            }
            assert(self.store().dom() =~= keys.to_set());
            keys.unique_seq_to_set();
        }
        out
    }

    /// Forgets the credential stored under `pubkey`, if any.
    pub fn remove_key(&mut self, pubkey: &str)
        requires
            old(self).wf(),
        ensures
            final(self).wf(),
            final(self).version() == old(self).version(),
            final(self).store() == old(self).store().remove(pubkey@),
    {
        let key = owned(pubkey);
        let ghost before = *self;
        match self.position(&key) {
            None => {
                assert(self.store() =~= before.store().remove(pubkey@));
            },
            Some(i) => {
                self.entries.remove(i);
                assert forall|a: int| 0 <= a < self.entries@.len() implies #[trigger] self.entries@[a] == before.entries@[if a < i { a } else { a + 1 }] by {}
                assert(self.wf()) by {
                    assert forall|a: int, b: int|
                        0 <= a < self.entries@.len() && 0 <= b < self.entries@.len() && a != b
                        implies #[trigger] self.entries@[a].pubkey@ != #[trigger] self.entries@[b].pubkey@ by {
                        let a2 = if a < i { a } else { a + 1 };
                        let b2 = if b < i { b } else { b + 1 };
                        assert(self.entries@[a] == before.entries@[a2]);
                        assert(self.entries@[b] == before.entries@[b2]);
                    }
                }
                assert forall|k: Seq<char>| #[trigger] self.store().contains_key(k) <==> before.store().remove(pubkey@).contains_key(k) by {
                    if self.store().contains_key(k) {
                        let j = choose|j: int| 0 <= j < self.entries@.len() && self.entries@[j].pubkey@ == k;
                        let j2 = if j < i { j } else { j + 1 };
                        assert(self.entries@[j] == before.entries@[j2]);
                        before.lemma_store_at(j2);
                        assert(j2 != i);
                    }
                    if before.store().remove(pubkey@).contains_key(k) {
                        let j = choose|j: int| 0 <= j < before.entries@.len() && before.entries@[j].pubkey@ == k;
                        assert(j != i);
                        let j1 = if j < i { j } else { j - 1 };
                        assert(self.entries@[j1] == before.entries@[j]);
                        self.lemma_store_at(j1);
                    }
                }
                assert forall|k: Seq<char>| #[trigger] self.store().contains_key(k) implies self.store()[k] == before.store().remove(pubkey@)[k] by {
                    let j = choose|j: int| 0 <= j < self.entries@.len() && self.entries@[j].pubkey@ == k;
                    let j2 = if j < i { j } else { j + 1 };
                    assert(self.entries@[j] == before.entries@[j2]);
                    self.lemma_store_at(j);
                    before.lemma_store_at(j2);
                }
                assert(self.store() =~= before.store().remove(pubkey@));
            },
        }
    }

    /// A store of the given format version holding `entries`; of two entries
    /// under one public key the later wins.
    pub fn from_entries(version: u32, entries: Vec<KeyEntry>) -> (r: Self)
        ensures
            r.wf(),
            r.version() == version,
            r.store() == entries_map(entries@),
    {
        let mut r = KeyringHelper { version, entries: Vec::new() };
        let mut rest = entries;
        let ghost all = rest@;
        let total = rest.len();
        let mut i: usize = 0;
        assert(r.store() =~= Map::<Seq<char>, Seq<char>>::empty());
        assert(all.subrange(0, 0) =~= Seq::<KeyEntry>::empty());
        while rest.len() > 0
            invariant
                r.wf(),
                r.version() == version,
                i + rest@.len() == all.len(),
                all.len() == total,
                rest@ == all.subrange(i as int, all.len() as int),
                r.store() == entries_map(all.subrange(0, i as int)),
            decreases rest@.len(),
        {
            let e = rest.remove(0);
            assert(e == all[i as int]);
            assert(all.subrange(0, i as int + 1).drop_last() =~= all.subrange(0, i as int));
            r.put(e);
            i = i + 1;
            assert(rest@ =~= all.subrange(i as int, all.len() as int));
        }
        assert(all.subrange(0, all.len() as int) =~= all);
        r
    }

    /// The stored entries, for writing the store out.
    pub fn entries(&self) -> (r: &[KeyEntry])
        requires
            self.wf(),
        ensures
            forall|k: Seq<char>| #[trigger] self.store().contains_key(k) <==> exists|i: int| 0 <= i < r@.len() && r@[i].pubkey@ == k,
            forall|i: int| 0 <= i < r@.len() ==> self.store()[#[trigger] r@[i].pubkey@] == r@[i].obfuscated@,
    {
        proof {
            assert forall|i: int| 0 <= i < self.entries@.len() implies self.store()[#[trigger] self.entries@[i].pubkey@] == self.entries@[i].obfuscated@ by {
                self.lemma_store_at(i);
            }
            assert forall|k: Seq<char>| #[trigger] self.store().contains_key(k) implies exists|i: int| 0 <= i < self.entries@.len() && self.entries@[i].pubkey@ == k by {
                self.lemma_store_value(k);
            }
            assert forall|k: Seq<char>| (exists|i: int| 0 <= i < self.entries@.len() && self.entries@[i].pubkey@ == k) implies #[trigger] self.store().contains_key(k) by {
                let i = choose|i: int| 0 <= i < self.entries@.len() && self.entries@[i].pubkey@ == k;
                self.lemma_store_at(i);
            }
        }
        self.entries.as_slice()
    }

    /// The format version the store was written with.
    pub fn store_version(&self) -> (r: u32)
        ensures
            r == self.version(),
    {
        self.version
    }

    fn put(&mut self, entry: KeyEntry)
        requires
            old(self).wf(),
        ensures
            final(self).wf(),
            final(self).version() == old(self).version(),
            final(self).store() == old(self).store().insert(entry.pubkey@, entry.obfuscated@),
    {
        let ghost before = *self;
        let ghost pk = entry.pubkey@;
        let ghost ob = entry.obfuscated@;
        match self.position(&entry.pubkey) {
            Some(i) => {
                self.entries.set(i, entry);
                assert(self.wf()) by {
                    assert forall|a: int, b: int|
                        0 <= a < self.entries@.len() && 0 <= b < self.entries@.len() && a != b
                        implies #[trigger] self.entries@[a].pubkey@ != #[trigger] self.entries@[b].pubkey@ by {
                        assert(before.entries@[a].pubkey@ == self.entries@[a].pubkey@);
                        assert(before.entries@[b].pubkey@ == self.entries@[b].pubkey@);
                    }
                }
                assert forall|k: Seq<char>| #[trigger] self.store().contains_key(k) <==> before.store().insert(pk, ob).contains_key(k) by {
                    if self.store().contains_key(k) {
                        let j = choose|j: int| 0 <= j < self.entries@.len() && self.entries@[j].pubkey@ == k;
                        if j != i {
                            before.lemma_store_at(j);
                        }
                    }
                    if before.store().contains_key(k) {
                        let j = choose|j: int| 0 <= j < before.entries@.len() && before.entries@[j].pubkey@ == k;
                        self.lemma_store_at(j);
                    }
                    if k == pk {
                        self.lemma_store_at(i as int);
                    }
                }
                assert forall|k: Seq<char>| #[trigger] self.store().contains_key(k) implies self.store()[k] == before.store().insert(pk, ob)[k] by {
                    let j = choose|j: int| 0 <= j < self.entries@.len() && self.entries@[j].pubkey@ == k;
                    self.lemma_store_at(j);
                    if j != i {
                        before.lemma_store_at(j);
                    }
                }
            },
            None => {
                self.entries.push(entry);
                assert(self.wf()) by {
                    assert forall|a: int, b: int|
                        0 <= a < self.entries@.len() && 0 <= b < self.entries@.len() && a != b
                        implies #[trigger] self.entries@[a].pubkey@ != #[trigger] self.entries@[b].pubkey@ by {
                        let n = before.entries@.len() as int;
                        if a == n {
                            assert(before.entries@[b].pubkey@ == self.entries@[b].pubkey@);
                            before.lemma_store_at(b);
                        } else if b == n {
                            assert(before.entries@[a].pubkey@ == self.entries@[a].pubkey@);
                            before.lemma_store_at(a);
                        } else {
                            assert(before.entries@[a] == self.entries@[a]);
                            assert(before.entries@[b] == self.entries@[b]);
                        }
                    }
                }
                assert forall|k: Seq<char>| #[trigger] self.store().contains_key(k) <==> before.store().insert(pk, ob).contains_key(k) by {
                    let n = before.entries@.len() as int;
                    if self.store().contains_key(k) {
                        let j = choose|j: int| 0 <= j < self.entries@.len() && self.entries@[j].pubkey@ == k;
                        if j != n {
                            assert(before.entries@[j] == self.entries@[j]);
                            before.lemma_store_at(j);
                        }
                    }
                    if before.store().contains_key(k) {
                        let j = choose|j: int| 0 <= j < before.entries@.len() && before.entries@[j].pubkey@ == k;
                        assert(before.entries@[j] == self.entries@[j]);
                        self.lemma_store_at(j);
                    }
                    if k == pk {
                        self.lemma_store_at(n);
                    }
                }
                assert forall|k: Seq<char>| #[trigger] self.store().contains_key(k) implies self.store()[k] == before.store().insert(pk, ob)[k] by {
                    let n = before.entries@.len() as int;
                    let j = choose|j: int| 0 <= j < self.entries@.len() && self.entries@[j].pubkey@ == k;
                    self.lemma_store_at(j);
                    if j != n {
                        assert(before.entries@[j] == self.entries@[j]);
                        before.lemma_store_at(j);
                    }
                }
            },
        }
        assert(self.store() =~= before.store().insert(pk, ob));
    }

    /// Obfuscates a private credential for storage.
    pub fn obfuscate(&self, data: &str) -> (r: String)
        ensures
            r@ == obfuscated(data@),
            revealed(r@) == Some(data@),
    {
        let masked = xor_bytes(data.as_bytes());
        let r = encode_base64(masked.as_slice());
        proof {
            lemma_xor_involution(encode_utf8(data@));
            encode_utf8_valid_utf8(data@);
            encode_utf8_decode_utf8(data@);
        }
        r
    }

    /// Recovers a private credential from its stored form.
    pub fn deobfuscate(&self, obfuscated: &str) -> (r: Result<String, CliError>)
        ensures
            r is Ok <==> revealed(obfuscated@) is Some,
            r matches Ok(s) ==> s@ == revealed(obfuscated@)->0,
            r matches Err(e) ==> e is Io,
    {
        let data = match decode_base64(obfuscated) {
            Ok(d) => d,
            Err(_) => {
                return Err(CliError::Io(owned("Stored key is not valid base64")));
            },
        };
        let clear = xor_bytes(data.as_slice());
        match utf8_text(clear) {
            Ok(s) => Ok(s),
            Err(_) => Err(CliError::Io(owned("Stored key is not valid UTF-8"))),
        }
    }
}

} // verus!
