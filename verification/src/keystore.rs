use vstd::prelude::*;
use crate::codec::{base64_encode, base64_standard_decode, lemma_base64_injective};
use crate::text::{is_six_upper, mask_prefix, masked, owned, six_upper};


verus! {

/// One paired controller as the key file records it. `body` is empty on disk;
/// it is filled from the credential store when keys are loaded.
#[derive(Debug)]
pub struct StoredKey {
    pub available: bool,
    pub body: String,
}

impl Clone for StoredKey {
    fn clone(&self) -> (r: Self)
        ensures
            r@ == self@,
    {
        StoredKey { available: self.available, body: self.body.clone() }
    }
}

impl View for StoredKey {
    type V = (bool, Seq<char>);

    open spec fn view(&self) -> (bool, Seq<char>) {
        (self.available, self.body@)
    }
}

/// Changes requested for one key: a new availability and/or a new id.
#[derive(Debug)]
pub struct EditOptions {
    pub avail: Option<bool>,
    pub id: Option<String>,
}

/// No id occurs twice.
pub open spec fn ids_distinct(s: Seq<(String, StoredKey)>) -> bool {
    forall|i: int, j: int| 0 <= i < s.len() && 0 <= j < s.len() && i != j ==> (#[trigger] s[i]).0@ != (#[trigger] s[j]).0@
}

/// The map from id to entry that a list of entries describes; a later entry
/// replaces an earlier one with the same id.
pub open spec fn table_map(s: Seq<(String, StoredKey)>) -> Map<Seq<char>, (bool, Seq<char>)>
    decreases s.len(),
{
    if s.len() == 0 {
        Map::empty()
    } else {
        table_map(s.drop_last()).insert(s.last().0@, s.last().1@)
    }
}

proof fn lemma_table_map_take_step(s: Seq<(String, StoredKey)>, i: int)
    requires
        0 <= i < s.len(),
    ensures
        table_map(s.take(i + 1)) == table_map(s.take(i)).insert(s[i].0@, s[i].1@),
{
    assert(s.take(i + 1).drop_last() =~= s.take(i));
}

proof fn lemma_table_map_dom(s: Seq<(String, StoredKey)>, k: Seq<char>)
    ensures
        table_map(s).contains_key(k) <==> exists|i: int| 0 <= i < s.len() && (#[trigger] s[i]).0@ == k,
    decreases s.len(),
{
    if s.len() > 0 {
        lemma_table_map_dom(s.drop_last(), k);
        if table_map(s.drop_last()).contains_key(k) {
            let i = choose|i: int| 0 <= i < s.drop_last().len() && (#[trigger] s.drop_last()[i]).0@ == k;
            assert(s[i].0@ == k);
        }
        if exists|i: int| 0 <= i < s.len() && (#[trigger] s[i]).0@ == k {
            let i = choose|i: int| 0 <= i < s.len() && (#[trigger] s[i]).0@ == k;
            if i < s.len() - 1 {
                assert(s.drop_last()[i].0@ == k);
            }
        }
    }
}

proof fn lemma_table_map_index(s: Seq<(String, StoredKey)>, i: int)
    requires
        ids_distinct(s),
        0 <= i < s.len(),
    ensures
        table_map(s).contains_key(s[i].0@),
        table_map(s)[s[i].0@] == s[i].1@,
    decreases s.len(),
{
    if i < s.len() - 1 {
        assert(s.drop_last()[i] == s[i]);
        assert(ids_distinct(s.drop_last())) by {
            assert forall|a: int, b: int| 0 <= a < s.drop_last().len() && 0 <= b < s.drop_last().len() && a != b
                implies (#[trigger] s.drop_last()[a]).0@ != (#[trigger] s.drop_last()[b]).0@ by {
                assert(s.drop_last()[a] == s[a]);
                assert(s.drop_last()[b] == s[b]);
            }
        }
        lemma_table_map_index(s.drop_last(), i);
        assert(s.last() == s[s.len() - 1]);
    }
}

/// The paired controllers, keyed by id.
pub struct KeyTable {
    entries: Vec<(String, StoredKey)>,
}

impl View for KeyTable {
    type V = Map<Seq<char>, (bool, Seq<char>)>;

    closed spec fn view(&self) -> Map<Seq<char>, (bool, Seq<char>)> {
        table_map(self.entries@)
    }
}

/// What a key edit asks of the credential store: move the secret from one id to another.
#[derive(Debug)]
pub struct KeyringMove {
    pub from: String,
    pub to: String,
}

/// A key is accepted for launching when it is available and its stored secret is the
/// base64 encoding of exactly 32 bytes.
pub open spec fn decodes_to_key(body: Seq<char>, key: Seq<u8>) -> bool {
    key.len() == 32 && base64_encode(key) == body
}

impl KeyTable {
    #[verifier::type_invariant]
    closed spec fn inv(self) -> bool {
        ids_distinct(self.entries@)
    }

    /// An empty table.
    pub fn new() -> (t: KeyTable)
        ensures
            t@ == Map::<Seq<char>, (bool, Seq<char>)>::empty(),
    {
        KeyTable { entries: Vec::new() }
    }

    /// Position of the entry with `id`, if any.
    fn position(&self, id: &String) -> (r: Option<usize>)
        ensures
            r matches Some(i) ==> i < self.entries@.len() && self.entries@[i as int].0@ == id@,
            r is None ==> forall|j: int| 0 <= j < self.entries@.len() ==> (#[trigger] self.entries@[j]).0@ != id@,
    {
        let mut i: usize = 0;
        while i < self.entries.len()
            invariant
                0 <= i <= self.entries@.len(),
                forall|j: int| 0 <= j < i ==> (#[trigger] self.entries@[j]).0@ != id@,
            decreases self.entries@.len() - i,
        {
            if self.entries[i].0 == *id {
                return Some(i);
            }
            i = i + 1;
        }
        None
    }

    /// Whether an entry with `id` exists.
    pub fn contains(&self, id: &String) -> (b: bool)
        ensures
            b == self@.contains_key(id@),
    {
        proof {
            lemma_table_map_dom(self.entries@, id@);
        }
        self.position(id).is_some()
    }

    /// The entry for `id`, if any.
    pub fn get(&self, id: &String) -> (r: Option<StoredKey>)
        ensures
            r matches Some(k) ==> self@.contains_key(id@) && k@ == self@[id@],
            r is None ==> !self@.contains_key(id@),
    {
        proof {
            use_type_invariant(self);
            lemma_table_map_dom(self.entries@, id@);
        }
        match self.position(id) {
            Some(i) => {
                proof {
                    lemma_table_map_index(self.entries@, i as int);
                }
                Some(self.entries[i].1.clone())
            },
            None => None,
        }
    }

    /// Removes the entry for `id`, returning it.
    pub fn remove(&mut self, id: &String) -> (r: Option<StoredKey>)
        ensures
            r matches Some(k) ==> old(self)@.contains_key(id@) && k@ == old(self)@[id@],
            r is None ==> !old(self)@.contains_key(id@),
            final(self)@ == old(self)@.remove(id@),
    {
        proof {
            use_type_invariant(&*self);
            lemma_table_map_dom(self.entries@, id@);
        }
        let old_entries = Ghost(self.entries@);
        let mut kept: Vec<(String, StoredKey)> = Vec::new();
        let mut found: Option<StoredKey> = None;
        let n = self.entries.len();
        let mut i: usize = 0;
        while i < n
            invariant
                n == self.entries@.len(),
                self.entries@ == old_entries@,
                ids_distinct(old_entries@),
                0 <= i <= n,
                ids_distinct(kept@),
                forall|j: int| 0 <= j < kept@.len() ==> exists|k: int| 0 <= k < i && (#[trigger] kept@[j]).0@ == (#[trigger] old_entries@[k]).0@,
                table_map(kept@) == table_map(old_entries@.take(i as int)).remove(id@),
                found matches Some(k) ==> exists|j: int| 0 <= j < i && (#[trigger] old_entries@[j]).0@ == id@ && old_entries@[j].1@ == k@,
                found is None ==> forall|j: int| 0 <= j < i ==> (#[trigger] old_entries@[j]).0@ != id@,
            decreases n - i,
        {
            proof {
                lemma_table_map_take_step(old_entries@, i as int);
            }
            if self.entries[i].0 == *id {
                found = Some(self.entries[i].1.clone());
                assert(table_map(old_entries@.take(i as int)).insert(old_entries@[i as int].0@, old_entries@[i as int].1@).remove(id@)
                    =~= table_map(old_entries@.take(i as int)).remove(id@));
            } else {
                let e = (self.entries[i].0.clone(), self.entries[i].1.clone());
                let ghost before = kept@;
                kept.push(e);
                proof {
                    assert(kept@.drop_last() =~= before);
                    assert forall|a: int, b: int| 0 <= a < kept@.len() && 0 <= b < kept@.len() && a != b
                        implies (#[trigger] kept@[a]).0@ != (#[trigger] kept@[b]).0@ by {
                        if a < before.len() && b < before.len() {
                            assert(kept@[a] == before[a]);
                            assert(kept@[b] == before[b]);
                        } else if a < before.len() {
                            assert(kept@[a] == before[a]);
                            let k = choose|k: int| 0 <= k < i && (#[trigger] before[a]).0@ == (#[trigger] old_entries@[k]).0@;
                            assert(old_entries@[k] != old_entries@[i as int] || k == i);
                        } else if b < before.len() {
                            assert(kept@[b] == before[b]);
                            let k = choose|k: int| 0 <= k < i && (#[trigger] before[b]).0@ == (#[trigger] old_entries@[k]).0@;
                        }
                    }
                    assert forall|j: int| 0 <= j < kept@.len() implies exists|k: int| 0 <= k < i + 1 && (#[trigger] kept@[j]).0@ == (#[trigger] old_entries@[k]).0@ by {
                        if j < before.len() {
                            assert(kept@[j] == before[j]);
                            let k = choose|k: int| 0 <= k < i && (#[trigger] before[j]).0@ == (#[trigger] old_entries@[k]).0@;
                            assert(kept@[j].0@ == old_entries@[k].0@);
                        } else {
                            assert(kept@[j].0@ == old_entries@[i as int].0@);
                        }
                    }
                    assert(table_map(kept@) =~= table_map(old_entries@.take(i as int)).insert(old_entries@[i as int].0@, old_entries@[i as int].1@).remove(id@));
                }
            }
            i = i + 1;
        }
        proof {
            assert(old_entries@.take(n as int) =~= old_entries@);
            if found is Some {
                let k = found->Some_0;
                let j = choose|j: int| 0 <= j < n && (#[trigger] old_entries@[j]).0@ == id@ && old_entries@[j].1@ == k@;
                lemma_table_map_index(old_entries@, j);
            }
        }
        self.entries = kept;
        found
    }

    /// Adds or replaces the entry for `id`.
    pub fn insert(&mut self, id: String, key: StoredKey)
        ensures
            final(self)@ == old(self)@.insert(id@, key@),
    {
        let _ = self.remove(&id);
        proof {
            use_type_invariant(&*self);
            lemma_table_map_dom(self.entries@, id@);
        }
        let ghost before = self.entries@;
        let mut entries: Vec<(String, StoredKey)> = Vec::new();
        std::mem::swap(&mut entries, &mut self.entries);
        entries.push((id, key));
        proof {
            assert(entries@.drop_last() =~= before);
            assert forall|a: int, b: int| 0 <= a < entries@.len() && 0 <= b < entries@.len() && a != b
                implies (#[trigger] entries@[a]).0@ != (#[trigger] entries@[b]).0@ by {
                if a < before.len() {
                    assert(entries@[a] == before[a]);
                }
                if b < before.len() {
                    assert(entries@[b] == before[b]);
                }
            }
        }
        self.entries = entries;
    }
}


/// The entry after an edit's availability change.
pub open spec fn with_avail(k: (bool, Seq<char>), avail: Option<bool>) -> (bool, Seq<char>) {
    match avail {
        Some(a) => (a, k.1),
        None => k,
    }
}

/// Message for an id that has no entry.
pub open spec fn no_key_message() -> Seq<char> {
    "No key found for the given ID"@
}

/// Message for a new id that is not six uppercase letters.
pub open spec fn bad_id_message() -> Seq<char> {
    "ID must be 6 uppercase A-Z letters."@
}

/// Message for a stored secret that decodes to a length other than 32 bytes.
pub open spec fn short_key_message(id: Seq<char>) -> Seq<char> {
    "Fatal: "@ + id + " key is not 32 bytes long. This should never happen. Please report this bug at GitHub issue and delete this key."@
}

/// Message for a stored secret that is not valid base64; `detail` is the decoder's own text.
pub open spec fn undecodable_key_message(id: Seq<char>, detail: Seq<char>) -> Seq<char> {
    "Fatal: Failed to decode "@ + id + " key. Details: "@ + detail
        + ". This should never happen. Please report this bug at GitHub issue and delete this key."@
}

/// Every entry of `s` names a distinct id of `m`, and every id of `m` that satisfies
/// `keep` is named.
pub open spec fn lists_ids(s: Seq<String>, m: Map<Seq<char>, (bool, Seq<char>)>, keep: spec_fn((bool, Seq<char>)) -> bool) -> bool {
    &&& forall|i: int, j: int| 0 <= i < s.len() && 0 <= j < s.len() && i != j ==> (#[trigger] s[i])@ != (#[trigger] s[j])@
    &&& forall|i: int| 0 <= i < s.len() ==> m.contains_key((#[trigger] s[i])@) && keep(m[s[i]@])
    &&& forall|k: Seq<char>| #[trigger] m.contains_key(k) && keep(m[k]) ==> exists|i: int| 0 <= i < s.len() && (#[trigger] s[i])@ == k
}

/// The 32-byte keys of the available entries of `m`, each under its id.
pub open spec fn lists_keys(s: Seq<(String, [u8; 32])>, m: Map<Seq<char>, (bool, Seq<char>)>) -> bool {
    &&& forall|i: int, j: int| 0 <= i < s.len() && 0 <= j < s.len() && i != j ==> (#[trigger] s[i]).0@ != (#[trigger] s[j]).0@
    &&& forall|i: int| 0 <= i < s.len() ==> m.contains_key((#[trigger] s[i]).0@) && m[s[i].0@].0 && decodes_to_key(m[s[i].0@].1, s[i].1@)
    &&& forall|k: Seq<char>| #[trigger] m.contains_key(k) && m[k].0 ==> exists|i: int| 0 <= i < s.len() && (#[trigger] s[i]).0@ == k
}

/// The stored secret decodes to some 32-byte key.
pub open spec fn has_key(body: Seq<char>) -> bool {
    exists|key: Seq<u8>| #[trigger] decodes_to_key(body, key)
}

impl KeyTable {
    /// The table that a list of entries describes (a later entry with the same id wins).
    pub fn from_entries(entries: Vec<(String, StoredKey)>) -> (t: KeyTable)
        ensures
            t@ == table_map(entries@),
    {
        let mut t = KeyTable::new();
        let n = entries.len();
        let mut i: usize = 0;
        while i < n
            invariant
                n == entries@.len(),
                0 <= i <= n,
                t@ == table_map(entries@.take(i as int)),
            decreases n - i,
        {
            proof {
                lemma_table_map_take_step(entries@, i as int);
            }
            t.insert(entries[i].0.clone(), entries[i].1.clone());
            i = i + 1;
        }
        proof {
            assert(entries@.take(n as int) =~= entries@);
        }
        t
    }

    /// The entries, each id once, in the order the table keeps them.
    pub fn into_entries(self) -> (entries: Vec<(String, StoredKey)>)
        ensures
            ids_distinct(entries@),
            table_map(entries@) == self@,
    {
        proof {
            use_type_invariant(&self);
        }
        self.entries
    }

    /// The number of entries.
    pub fn len(&self) -> (n: usize)
        ensures
            n == self@.len(),
    {
        proof {
            use_type_invariant(self);
            lemma_table_map_len(self.entries@);
        }
        self.entries.len()
    }

    /// The ids of the entries whose availability is `true`, or of all entries.
    fn ids_where(&self, only_available: bool) -> (ids: Vec<String>)
        ensures
            lists_ids(ids@, self@, |k: (bool, Seq<char>)| !only_available || k.0),
    {
        proof {
            use_type_invariant(self);
        }
        let ghost keep = |k: (bool, Seq<char>)| !only_available || k.0;
        let ghost m = self@;
        let mut ids: Vec<String> = Vec::new();
        let n = self.entries.len();
        let mut i: usize = 0;
        while i < n
            invariant
                n == self.entries@.len(),
                ids_distinct(self.entries@),
                m == table_map(self.entries@),
                keep == (|k: (bool, Seq<char>)| !only_available || k.0),
                0 <= i <= n,
                forall|a: int, b: int| 0 <= a < ids@.len() && 0 <= b < ids@.len() && a != b ==> (#[trigger] ids@[a])@ != (#[trigger] ids@[b])@,
                forall|a: int| 0 <= a < ids@.len() ==> exists|j: int| 0 <= j < i && (#[trigger] ids@[a])@ == (#[trigger] self.entries@[j]).0@ && keep(self.entries@[j].1@),
                forall|j: int| 0 <= j < i && keep((#[trigger] self.entries@[j]).1@) ==> exists|a: int| 0 <= a < ids@.len() && (#[trigger] ids@[a])@ == self.entries@[j].0@,
            decreases n - i,
        {
            let ghost before = ids@;
            if !only_available || self.entries[i].1.available {
                ids.push(self.entries[i].0.clone());
                proof {
                    assert forall|a: int, b: int| 0 <= a < ids@.len() && 0 <= b < ids@.len() && a != b
                        implies (#[trigger] ids@[a])@ != (#[trigger] ids@[b])@ by {
                        if a < before.len() && b < before.len() {
                            assert(ids@[a] == before[a] && ids@[b] == before[b]);
                        } else if a < before.len() {
                            assert(ids@[a] == before[a]);
                            let j = choose|j: int| 0 <= j < i && (#[trigger] before[a])@ == (#[trigger] self.entries@[j]).0@ && keep(self.entries@[j].1@);
                        } else if b < before.len() {
                            assert(ids@[b] == before[b]);
                            let j = choose|j: int| 0 <= j < i && (#[trigger] before[b])@ == (#[trigger] self.entries@[j]).0@ && keep(self.entries@[j].1@);
                        }
                    }
                    assert forall|a: int| 0 <= a < ids@.len() implies exists|j: int| 0 <= j < i + 1 && (#[trigger] ids@[a])@ == (#[trigger] self.entries@[j]).0@ && keep(self.entries@[j].1@) by {
                        if a < before.len() {
                            assert(ids@[a] == before[a]);
                            let j = choose|j: int| 0 <= j < i && (#[trigger] before[a])@ == (#[trigger] self.entries@[j]).0@ && keep(self.entries@[j].1@);
                            assert(ids@[a]@ == self.entries@[j].0@);
                        } else {
                            assert(ids@[a]@ == self.entries@[i as int].0@);
                        }
                    }
                    assert forall|j: int| 0 <= j < i + 1 && keep((#[trigger] self.entries@[j]).1@) implies exists|a: int| 0 <= a < ids@.len() && (#[trigger] ids@[a])@ == self.entries@[j].0@ by {
                        if j < i {
                            let a = choose|a: int| 0 <= a < before.len() && (#[trigger] before[a])@ == self.entries@[j].0@;
                            assert(ids@[a] == before[a]);
                        } else {
                            assert(ids@[before.len() as int]@ == self.entries@[j].0@);
                        }
                    }
                }
            }
            i = i + 1;
        }
        proof {
            assert forall|a: int| 0 <= a < ids@.len() implies m.contains_key((#[trigger] ids@[a])@) && keep(m[ids@[a]@]) by {
                let j = choose|j: int| 0 <= j < n && (#[trigger] ids@[a])@ == (#[trigger] self.entries@[j]).0@ && keep(self.entries@[j].1@);
                lemma_table_map_index(self.entries@, j);
            }
            assert forall|k: Seq<char>| #[trigger] m.contains_key(k) && keep(m[k]) implies exists|a: int| 0 <= a < ids@.len() && (#[trigger] ids@[a])@ == k by {
                lemma_table_map_dom(self.entries@, k);
                let j = choose|j: int| 0 <= j < n && (#[trigger] self.entries@[j]).0@ == k;
                lemma_table_map_index(self.entries@, j);
                assert(keep(self.entries@[j].1@));
            }
        }
        ids
    }

    /// The ids of all entries, each once.
    pub fn ids(&self) -> (ids: Vec<String>)
        ensures
            lists_ids(ids@, self@, |k: (bool, Seq<char>)| true),
    {
        let ids = self.ids_where(false);
        assert(lists_ids(ids@, self@, |k: (bool, Seq<char>)| true)) by {
            assert((|k: (bool, Seq<char>)| !false || k.0) =~= (|k: (bool, Seq<char>)| true));
        }
        ids
    }

    /// The ids of the available entries, each once.
    pub fn available_ids(&self) -> (ids: Vec<String>)
        ensures
            lists_ids(ids@, self@, |k: (bool, Seq<char>)| k.0),
    {
        let ids = self.ids_where(true);
        assert(lists_ids(ids@, self@, |k: (bool, Seq<char>)| k.0)) by {
            assert((|k: (bool, Seq<char>)| !true || k.0) =~= (|k: (bool, Seq<char>)| k.0));
        }
        ids
    }

    /// Replaces the body of the entry for `id`, if there is one.
    pub fn set_body(&mut self, id: &String, body: String)
        ensures
            old(self)@.contains_key(id@) ==> final(self)@ == old(self)@.insert(id@, (old(self)@[id@].0, body@)),
            !old(self)@.contains_key(id@) ==> final(self)@ == old(self)@,
    {
        match self.get(id) {
            Some(k) => {
                self.insert(id.clone(), StoredKey { available: k.available, body });
            },
            None => {},
        }
    }

    /// Shows the start of a controller's secret in its entry: with the secret from the
    /// credential store, the body becomes its first four characters and `...`; without
    /// one, the entry keeps its stored body.
    pub fn show_secret(&mut self, id: &String, secret: Option<String>)
        ensures
            final(self)@ == match secret {
                Some(sec) => if old(self)@.contains_key(id@) {
                    old(self)@.insert(id@, (old(self)@[id@].0, masked(sec@, 4)))
                } else {
                    old(self)@
                },
                None => old(self)@,
            },
    {
        if let Some(sec) = secret {
            self.set_body(id, mask_prefix(sec.as_str(), 4));
        }
    }

    /// Records a newly paired controller: available, with an empty body.
    pub fn record_pairing(&mut self, remote_id: String)
        ensures
            final(self)@ == old(self)@.insert(remote_id@, (true, Seq::<char>::empty())),
    {
        let key = StoredKey { available: true, body: String::new() };
        self.insert(remote_id, key);
    }

    /// Deletes the entry for `id`; refused when there is none.
    pub fn delete_key(&mut self, id: &String) -> (r: Result<(), String>)
        ensures
            r is Ok <==> old(self)@.contains_key(id@),
            r is Ok ==> final(self)@ == old(self)@.remove(id@),
            r matches Err(e) ==> final(self)@ == old(self)@ && e@ == no_key_message(),
    {
        match self.remove(id) {
            Some(_) => Ok(()),
            None => {
                proof {
                    assert(old(self)@.remove(id@) =~= old(self)@);
                }
                Err(owned("No key found for the given ID"))
            },
        }
    }

    /// Edits the entry for `id`: sets its availability when asked, and moves it to a new id
    /// when one is given. A new id must be six letters `A`-`Z`. When the entry moves to a
    /// different id, the returned move says which credential to carry over.
    pub fn edit_key(&mut self, id: String, opt: EditOptions) -> (r: Result<Option<KeyringMove>, String>)
        ensures
            !old(self)@.contains_key(id@) ==> (r matches Err(e) && e@ == no_key_message()) && final(self)@ == old(self)@,
            old(self)@.contains_key(id@) ==> ({
                let k = with_avail(old(self)@[id@], opt.avail);
                match opt.id {
                    None => r matches Ok(mv) && mv is None && final(self)@ == old(self)@.insert(id@, k),
                    Some(n) => if !six_upper(n@) {
                        (r matches Err(e) && e@ == bad_id_message()) && final(self)@ == old(self)@.insert(id@, k)
                    } else {
                        &&& r is Ok
                        &&& final(self)@ == old(self)@.remove(id@).insert(n@, k)
                        &&& (r->Ok_0 is Some <==> n@ != id@)
                        &&& (r matches Ok(Some(mv)) ==> mv.from@ == id@ && mv.to@ == n@)
                    },
                }
            }),
    {
        let mut key_data = match self.remove(&id) {
            Some(k) => k,
            None => {
                proof {
                    assert(old(self)@.remove(id@) =~= old(self)@);
                }
                return Err(owned("No key found for the given ID"));
            },
        };
        if let Some(avail) = opt.avail {
            key_data.available = avail;
        }
        let ghost k = key_data@;
        match opt.id {
            Some(new_id) => {
                if !is_six_upper(new_id.as_str()) {
                    self.insert(id, key_data);
                    proof {
                        assert(old(self)@.remove(id@).insert(id@, k) =~= old(self)@.insert(id@, k));
                    }
                    return Err(owned("ID must be 6 uppercase A-Z letters."));
                }
                let mv = if id != new_id {
                    Some(KeyringMove { from: id, to: new_id.clone() })
                } else {
                    None
                };
                self.insert(new_id, key_data);
                Ok(mv)
            },
            None => {
                self.insert(id, key_data);
                proof {
                    assert(old(self)@.remove(id@).insert(id@, k) =~= old(self)@.insert(id@, k));
                }
                Ok(None)
            },
        }
    }

    /// The 32-byte keys of the available entries, decoded from their bodies (the base64
    /// secrets filled in from the credential store). Refused at the first available entry
    /// whose body is not the base64 encoding of 32 bytes.
    pub fn decode_available_keys(&self) -> (r: Result<Vec<(String, [u8; 32])>, String>)
        ensures
            r is Ok <==> (forall|k: Seq<char>| #[trigger] self@.contains_key(k) && self@[k].0 ==> has_key(self@[k].1)),
            r matches Ok(v) ==> lists_keys(v@, self@),
            r matches Err(e) ==> exists|k: Seq<char>| #[trigger] self@.contains_key(k) && self@[k].0 && !has_key(self@[k].1)
                && (e@ == short_key_message(k) || exists|d: Seq<char>| e@ == #[trigger] undecodable_key_message(k, d)),
    {
        proof {
            use_type_invariant(self);
        }
        let ghost m = self@;
        let n = self.entries.len();
        let mut out: Vec<(String, [u8; 32])> = Vec::new();
        let mut i: usize = 0;
        proof {
            reveal(listed_prefix);
        }
        while i < n
            invariant
                n == self.entries@.len(),
                ids_distinct(self.entries@),
                m == table_map(self.entries@),
                0 <= i <= n,
                listed_prefix(out@, self.entries@, i as int),
            decreases n - i,
        {
            let entry = &self.entries[i];
            if entry.1.available {
                match decode_key_body(&entry.0, &entry.1.body) {
                    Err(msg) => {
                        proof {
                            lemma_table_map_index(self.entries@, i as int);
                            assert(self@.contains_key(entry.0@) && self@[entry.0@].0 && !has_key(self@[entry.0@].1));
                        }
                        return Err(msg);
                    },
                    Ok(arr) => {
                        let ghost before = out@;
                        out.push((entry.0.clone(), arr));
                        proof {
                            lemma_push_listed(before, out@, self.entries@, i as int);
                        }
                    },
                }
            } else {
                proof {
                    lemma_skip_listed(out@, self.entries@, i as int);
                }
            }
            i = i + 1;
        }
        proof {
            reveal(listed_prefix);
            assert forall|a: int| 0 <= a < out@.len() implies m.contains_key((#[trigger] out@[a]).0@) && m[out@[a].0@].0 && decodes_to_key(m[out@[a].0@].1, out@[a].1@) by {
                assert(drawn_from(out@, self.entries@, n as int, a));
                let j = choose|j: int| 0 <= j < n && out@[a].0@ == (#[trigger] self.entries@[j]).0@
                    && self.entries@[j].1.available && decodes_to_key(self.entries@[j].1.body@, out@[a].1@);
                lemma_table_map_index(self.entries@, j);
            }
            assert forall|k: Seq<char>| #[trigger] m.contains_key(k) && m[k].0 implies exists|a: int| 0 <= a < out@.len() && (#[trigger] out@[a]).0@ == k by {
                lemma_table_map_dom(self.entries@, k);
                let j = choose|j: int| 0 <= j < n && (#[trigger] self.entries@[j]).0@ == k;
                lemma_table_map_index(self.entries@, j);
                assert(listed_in(out@, self.entries@, j));
            }
            assert forall|k: Seq<char>| #[trigger] m.contains_key(k) && m[k].0 implies has_key(m[k].1) by {
                let a = choose|a: int| 0 <= a < out@.len() && (#[trigger] out@[a]).0@ == k;
                assert(decodes_to_key(m[k].1, out@[a].1@));
            }
        }
        Ok(out)
    }
}

/// The key that a stored secret encodes, or the message that refuses it.
fn decode_key_body(id: &String, body: &String) -> (r: Result<[u8; 32], String>)
    ensures
        r matches Ok(k) ==> decodes_to_key(body@, k@),
        r matches Err(e) ==> !has_key(body@)
            && (e@ == short_key_message(id@) || exists|d: Seq<char>| e@ == #[trigger] undecodable_key_message(id@, d)),
{
    match base64_standard_decode(body.as_str()) {
        Err(detail) => {
            let mut msg = owned("Fatal: Failed to decode ");
            msg.append(id.as_str());
            msg.append(" key. Details: ");
            msg.append(detail.as_str());
            msg.append(". This should never happen. Please report this bug at GitHub issue and delete this key.");
            proof {
                assert forall|key: Seq<u8>| !#[trigger] decodes_to_key(body@, key) by {
                    if decodes_to_key(body@, key) {
                        assert(base64_encode(key) == body@);
                    }
                }
                assert(msg@ =~= undecodable_key_message(id@, detail@));
            }
            Err(msg)
        },
        Ok(decoded) => {
            if decoded.len() != 32 {
                let mut msg = owned("Fatal: ");
                msg.append(id.as_str());
                msg.append(" key is not 32 bytes long. This should never happen. Please report this bug at GitHub issue and delete this key.");
                proof {
                    assert forall|key: Seq<u8>| !#[trigger] decodes_to_key(body@, key) by {
                        if decodes_to_key(body@, key) {
                            lemma_base64_injective(key, decoded@);
                        }
                    }
                    assert(msg@ =~= short_key_message(id@));
                }
                return Err(msg);
            }
            let mut arr = [0u8; 32];
            let mut j: usize = 0;
            while j < 32
                invariant
                    decoded@.len() == 32,
                    0 <= j <= 32,
                    forall|t: int| 0 <= t < j ==> arr@[t] == decoded@[t],
                decreases 32 - j,
            {
                arr[j] = decoded[j];
                j = j + 1;
            }
            assert(arr@ =~= decoded@);
            Ok(arr)
        },
    }
}

/// `out[a]` comes from an available entry among the first `i`, and holds its key.
spec fn drawn_from(out: Seq<(String, [u8; 32])>, entries: Seq<(String, StoredKey)>, i: int, a: int) -> bool {
    exists|j: int| 0 <= j < i && out[a].0@ == (#[trigger] entries[j]).0@
        && entries[j].1.available && decodes_to_key(entries[j].1.body@, out[a].1@)
}

/// The id of entry `j` occurs in `out`.
spec fn listed_in(out: Seq<(String, [u8; 32])>, entries: Seq<(String, StoredKey)>, j: int) -> bool {
    exists|a: int| 0 <= a < out.len() && (#[trigger] out[a]).0@ == entries[j].0@
}

#[verifier::opaque]
spec fn listed_prefix(out: Seq<(String, [u8; 32])>, entries: Seq<(String, StoredKey)>, i: int) -> bool {
    &&& forall|a: int, b: int| 0 <= a < out.len() && 0 <= b < out.len() && a != b ==> (#[trigger] out[a]).0@ != (#[trigger] out[b]).0@
    &&& forall|a: int| 0 <= a < out.len() ==> #[trigger] drawn_from(out, entries, i, a)
    &&& forall|j: int| 0 <= j < i && entries[j].1.available ==> #[trigger] listed_in(out, entries, j)
}

proof fn lemma_skip_listed(out: Seq<(String, [u8; 32])>, entries: Seq<(String, StoredKey)>, i: int)
    requires
        0 <= i < entries.len(),
        !entries[i].1.available,
        listed_prefix(out, entries, i),
    ensures
        listed_prefix(out, entries, i + 1),
{
    reveal(listed_prefix);
    assert forall|a: int| 0 <= a < out.len() implies #[trigger] drawn_from(out, entries, i + 1, a) by {
        assert(drawn_from(out, entries, i, a));
        let j = choose|j: int| 0 <= j < i && out[a].0@ == (#[trigger] entries[j]).0@
            && entries[j].1.available && decodes_to_key(entries[j].1.body@, out[a].1@);
        assert(entries[j] == entries[j]);
    }
    assert forall|j: int| 0 <= j < i + 1 && entries[j].1.available implies #[trigger] listed_in(out, entries, j) by {
        assert(j < i);
    }
}

proof fn lemma_push_listed(before: Seq<(String, [u8; 32])>, out: Seq<(String, [u8; 32])>, entries: Seq<(String, StoredKey)>, i: int)
    requires
        0 <= i < entries.len(),
        ids_distinct(entries),
        entries[i].1.available,
        out.len() == before.len() + 1,
        forall|a: int| 0 <= a < before.len() ==> out[a] == before[a],
        out[before.len() as int].0@ == entries[i].0@,
        decodes_to_key(entries[i].1.body@, out[before.len() as int].1@),
        listed_prefix(before, entries, i),
    ensures
        listed_prefix(out, entries, i + 1),
{
    reveal(listed_prefix);
    assert forall|a: int, b: int| 0 <= a < out.len() && 0 <= b < out.len() && a != b
        implies (#[trigger] out[a]).0@ != (#[trigger] out[b]).0@ by {
        if a < before.len() && b < before.len() {
            assert(out[a] == before[a] && out[b] == before[b]);
        } else if a < before.len() {
            assert(out[a] == before[a]);
            assert(drawn_from(before, entries, i, a));
            let j = choose|j: int| 0 <= j < i && before[a].0@ == (#[trigger] entries[j]).0@
                && entries[j].1.available && decodes_to_key(entries[j].1.body@, before[a].1@);
        } else if b < before.len() {
            assert(out[b] == before[b]);
            assert(drawn_from(before, entries, i, b));
            let j = choose|j: int| 0 <= j < i && before[b].0@ == (#[trigger] entries[j]).0@
                && entries[j].1.available && decodes_to_key(entries[j].1.body@, before[b].1@);
        }
    }
    assert forall|a: int| 0 <= a < out.len() implies #[trigger] drawn_from(out, entries, i + 1, a) by {
        if a < before.len() {
            assert(out[a] == before[a]);
            assert(drawn_from(before, entries, i, a));
            let j = choose|j: int| 0 <= j < i && before[a].0@ == (#[trigger] entries[j]).0@
                && entries[j].1.available && decodes_to_key(entries[j].1.body@, before[a].1@);
            assert(entries[j] == entries[j]);
        } else {
            assert(entries[i] == entries[i]);
        }
    }
    assert forall|j: int| 0 <= j < i + 1 && entries[j].1.available implies #[trigger] listed_in(out, entries, j) by {
        if j < i {
            assert(listed_in(before, entries, j));
            let a = choose|a: int| 0 <= a < before.len() && (#[trigger] before[a]).0@ == entries[j].0@;
            assert(out[a] == before[a]);
        } else {
            assert(out[before.len() as int].0@ == entries[j].0@);
        }
    }
}

proof fn lemma_table_map_len(s: Seq<(String, StoredKey)>)
    requires
        ids_distinct(s),
    ensures
        table_map(s).len() == s.len(),
        table_map(s).dom().finite(),
    decreases s.len(),
{
    if s.len() > 0 {
        let p = s.drop_last();
        assert(ids_distinct(p)) by {
            assert forall|a: int, b: int| 0 <= a < p.len() && 0 <= b < p.len() && a != b
                implies (#[trigger] p[a]).0@ != (#[trigger] p[b]).0@ by {
                assert(p[a] == s[a] && p[b] == s[b]);
            }
        }
        lemma_table_map_len(p);
        lemma_table_map_dom(p, s.last().0@);
        if table_map(p).contains_key(s.last().0@) {
            let i = choose|i: int| 0 <= i < p.len() && (#[trigger] p[i]).0@ == s.last().0@;
            assert(p[i] == s[i]);
        }
    }
}

} // verus!
