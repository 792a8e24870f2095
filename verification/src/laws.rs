use vstd::prelude::*;

use crate::codec::{base64_encode, lemma_base64_injective};
use crate::crypto::law_salt_symmetric;
use crate::keystore::{decodes_to_key, has_key, lists_keys};
use crate::launching::{key_for, keys_distinct};
use crate::pairing::pairing_key;

verus! {

/// Both ends of a pairing derive the same key from the shared secret: it does not matter
/// which of the two public keys is the host's.
pub proof fn law_pairing_key_symmetric(secret: Seq<u8>, host_pub: Seq<u8>, client_pub: Seq<u8>)
    requires
        host_pub.len() == client_pub.len(),
    ensures
        pairing_key(secret, host_pub, client_pub) == pairing_key(secret, client_pub, host_pub),
{
    law_salt_symmetric(host_pub, client_pub);
}

/// What pairing saves is what a launch loads: once a controller is recorded as available
/// with the saved secret (the base64 text of a 32-byte key), the keys loaded from the table
/// hold exactly that key under the controller's id.
pub proof fn law_saved_key_loads(
    m: Map<Seq<char>, (bool, Seq<char>)>,
    id: Seq<char>,
    key: Seq<u8>,
    loaded: Seq<(String, [u8; 32])>,
)
    requires
        key.len() == 32,
        lists_keys(loaded, m.insert(id, (true, base64_encode(key)))),
    ensures
        has_key(base64_encode(key)),
        exists|i: int| 0 <= i < loaded.len() && (#[trigger] loaded[i]).0@ == id && loaded[i].1@ == key,
{
    let m2 = m.insert(id, (true, base64_encode(key)));
    assert(decodes_to_key(base64_encode(key), key));
    assert(m2.contains_key(id) && m2[id].0);
    let i = choose|i: int| 0 <= i < loaded.len() && (#[trigger] loaded[i]).0@ == id;
    assert(decodes_to_key(m2[loaded[i].0@].1, loaded[i].1@));
    lemma_base64_injective(loaded[i].1@, key);
}

/// With distinct ids, the key a launch finds under an entry's id is that entry's key.
pub proof fn law_key_for_entry(keys: Seq<(Seq<char>, Seq<u8>)>, i: int)
    requires
        0 <= i < keys.len(),
        keys_distinct(keys),
    ensures
        key_for(keys, keys[i].0) == Some(keys[i].1),
    decreases i,
{
    if i > 0 {
        let rest = keys.drop_first();
        assert forall|a: int, b: int| 0 <= a < rest.len() && 0 <= b < rest.len() && a != b implies (#[trigger] rest[a]).0 != (#[trigger] rest[b]).0 by {
            assert(rest[a] == keys[a + 1] && rest[b] == keys[b + 1]);
        }
        assert(keys[0].0 != keys[i].0);
        assert(rest[i - 1] == keys[i]);
        law_key_for_entry(rest, i - 1);
    }
}

/// A controller that was paired and saved is known to the launch under its id: the
/// challenge for it is answered with the HMAC under the very key that pairing derived.
pub proof fn law_saved_key_authenticates(
    m: Map<Seq<char>, (bool, Seq<char>)>,
    id: Seq<char>,
    key: Seq<u8>,
    loaded: Seq<(String, [u8; 32])>,
)
    requires
        key.len() == 32,
        lists_keys(loaded, m.insert(id, (true, base64_encode(key)))),
    ensures
        key_for(loaded.map_values(|e: (String, [u8; 32])| (e.0@, e.1@)), id) == Some(key),
{
    law_saved_key_loads(m, id, key, loaded);
    let keys = loaded.map_values(|e: (String, [u8; 32])| (e.0@, e.1@));
    let i = choose|i: int| 0 <= i < loaded.len() && (#[trigger] loaded[i]).0@ == id && loaded[i].1@ == key;
    assert forall|a: int, b: int| 0 <= a < keys.len() && 0 <= b < keys.len() && a != b implies (#[trigger] keys[a]).0 != (#[trigger] keys[b]).0 by {
        assert(keys[a].0 == loaded[a].0@ && keys[b].0 == loaded[b].0@);
    }
    law_key_for_entry(keys, i);
}

} // verus!
