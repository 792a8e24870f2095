use vstd::prelude::*;
use vstd::string::StringExecFns;

use crate::crypto::hex_digit;
use crate::text::{decimal, owned, push_decimal, string_push};

verus! {

// ---------------------------------------------------------------------------
// JSON text of the messages the host sends to the signalling server. Each is a
// JSON object whose first member is `"type"`; strings are quoted as serde_json
// quotes them.
// ---------------------------------------------------------------------------

/// How serde_json writes one character inside a string: quote, backslash and the
/// control characters below U+0020 are escaped (the short forms where JSON has one,
/// else `\u00XX` with lowercase hex digits); every other character stands as it is.
pub open spec fn json_escape_char(c: char) -> Seq<char> {
    if c == '"' {
        seq!['\\', '"']
    } else if c == '\\' {
        seq!['\\', '\\']
    } else if c == '\u{8}' {
        seq!['\\', 'b']
    } else if c == '\t' {
        seq!['\\', 't']
    } else if c == '\n' {
        seq!['\\', 'n']
    } else if c == '\u{c}' {
        seq!['\\', 'f']
    } else if c == '\r' {
        seq!['\\', 'r']
    } else if (c as u32) < 0x20 {
        seq!['\\', 'u', '0', '0', hex_digit((c as u8) / 16), hex_digit((c as u8) % 16)]
    } else {
        seq![c]
    }
}

/// The characters of `s`, each escaped.
pub open spec fn json_escaped(s: Seq<char>) -> Seq<char>
    decreases s.len(),
{
    if s.len() == 0 {
        Seq::empty()
    } else {
        json_escaped(s.drop_last()) + json_escape_char(s.last())
    }
}

/// `s` as a JSON string literal.
pub open spec fn json_quoted(s: Seq<char>) -> Seq<char> {
    seq!['"'] + json_escaped(s) + seq!['"']
}

/// Calls `serde_json::to_string` on a string slice. Its serializer writes `"`, then
/// each byte run of `s` with the escapes of its `ESCAPE` table (`json_escape_char`),
/// then `"`; serialising a `str` into memory does not fail.
#[verifier::external_body]
fn json_string(s: &str) -> (r: String)
    ensures
        r@ == json_quoted(s@),
{
    match serde_json::to_string(s) {
        Ok(t) => t,
        Err(_) => String::new(),
    }
}

/// The decimal numbers of `b`, separated by commas.
pub open spec fn joined_bytes(b: Seq<u8>) -> Seq<char>
    decreases b.len(),
{
    if b.len() == 0 {
        Seq::empty()
    } else if b.len() == 1 {
        decimal(b[0] as nat)
    } else {
        joined_bytes(b.drop_last()) + seq![','] + decimal(b.last() as nat)
    }
}

/// The JSON array of the bytes of `b`, as numbers.
pub open spec fn json_byte_array(b: Seq<u8>) -> Seq<char> {
    seq!['['] + joined_bytes(b) + seq![']']
}

/// The quoted strings of `ss`, separated by commas.
pub open spec fn joined_quoted(ss: Seq<Seq<char>>) -> Seq<char>
    decreases ss.len(),
{
    if ss.len() == 0 {
        Seq::empty()
    } else if ss.len() == 1 {
        json_quoted(ss[0])
    } else {
        joined_quoted(ss.drop_last()) + seq![','] + json_quoted(ss.last())
    }
}

/// The JSON array of the strings `ss`.
pub open spec fn json_string_array(ss: Seq<Seq<char>>) -> Seq<char> {
    seq!['['] + joined_quoted(ss) + seq![']']
}

fn push_byte_array(s: &mut String, b: &[u8])
    ensures
        final(s)@ == old(s)@ + json_byte_array(b@),
{
    string_push(s, '[');
    let mut i: usize = 0;
    while i < b.len()
        invariant
            i <= b@.len(),
            s@ == old(s)@ + seq!['['] + joined_bytes(b@.take(i as int)),
        decreases b@.len() - i,
    {
        let ghost before = s@;
        if i > 0 {
            string_push(s, ',');
        }
        push_decimal(s, b[i] as u32);
        proof {
            let t = b@.take(i + 1);
            assert(t.drop_last() =~= b@.take(i as int));
            if i == 0 {
                assert(joined_bytes(b@.take(0)) =~= Seq::<char>::empty());
            }
        }
        i = i + 1;
        assert(s@ =~= old(s)@ + seq!['['] + joined_bytes(b@.take(i as int)));
    }
    string_push(s, ']');
    assert(b@.take(b@.len() as int) =~= b@);
    assert(s@ =~= old(s)@ + json_byte_array(b@));
}

fn push_string_array(s: &mut String, ss: &Vec<String>)
    ensures
        final(s)@ == old(s)@ + json_string_array(ss@.map_values(|x: String| x@)),
{
    let ghost views = ss@.map_values(|x: String| x@);
    string_push(s, '[');
    let mut i: usize = 0;
    while i < ss.len()
        invariant
            i <= ss@.len(),
            views == ss@.map_values(|x: String| x@),
            s@ == old(s)@ + seq!['['] + joined_quoted(views.take(i as int)),
        decreases ss@.len() - i,
    {
        if i > 0 {
            string_push(s, ',');
        }
        let q = json_string(ss[i].as_str());
        s.append(q.as_str());
        proof {
            let t = views.take(i + 1);
            assert(t.drop_last() =~= views.take(i as int));
            assert(t.last() == ss@[i as int]@);
            if i == 0 {
                assert(joined_quoted(views.take(0)) =~= Seq::<char>::empty());
            }
        }
        i = i + 1;
        assert(s@ =~= old(s)@ + seq!['['] + joined_quoted(views.take(i as int)));
    }
    string_push(s, ']');
    assert(views.take(views.len() as int) =~= views);
    assert(s@ =~= old(s)@ + json_string_array(views));
}

/// `{"type":"deny"}`: the controller's request or answer is refused.
pub fn deny_message() -> (m: String)
    ensures
        m@ == "{\"type\":\"deny\"}"@,
{
    owned("{\"type\":\"deny\"}")
}

/// `{"type":"accept"}`: the user accepts the pairing.
pub fn accept_message() -> (m: String)
    ensures
        m@ == "{\"type\":\"accept\"}"@,
{
    owned("{\"type\":\"accept\"}")
}

/// `{"type":"cancel"}`: the user withdraws an acceptance.
pub fn cancel_message() -> (m: String)
    ensures
        m@ == "{\"type\":\"cancel\"}"@,
{
    owned("{\"type\":\"cancel\"}")
}

/// The challenge sent to a controller: the nonce as an array of numbers.
pub fn queryverify_message(nonce: &[u8; 32]) -> (m: String)
    ensures
        m@ == "{\"type\":\"queryverify\",\"nonce\":"@ + json_byte_array(nonce@) + "}"@,
{
    let mut m = owned("{\"type\":\"queryverify\",\"nonce\":");
    push_byte_array(&mut m, nonce.as_slice());
    m.append("}");
    m
}

/// The first message of a pairing: the host's public key as an array of numbers.
pub fn init_remote_message(public: &[u8; 32]) -> (m: String)
    ensures
        m@ == "{\"type\":\"init_remote\",\"pub\":"@ + json_byte_array(public@) + "}"@,
{
    let mut m = owned("{\"type\":\"init_remote\",\"pub\":");
    push_byte_array(&mut m, public.as_slice());
    m.append("}");
    m
}

/// The first message of a launch: the ids of the controllers that may connect.
pub fn init_message(ids: &Vec<String>) -> (m: String)
    ensures
        m@ == "{\"type\":\"init\",\"keys\":"@ + json_string_array(ids@.map_values(|x: String| x@)) + "}"@,
{
    let mut m = owned("{\"type\":\"init\",\"keys\":");
    push_string_array(&mut m, ids);
    m.append("}");
    m
}

/// The host's SDP offer.
pub fn accept_offer_message(sdp: &str) -> (m: String)
    ensures
        m@ == "{\"type\":\"accept-offer\",\"sdp\":"@ + json_quoted(sdp@) + "}"@,
{
    let mut m = owned("{\"type\":\"accept-offer\",\"sdp\":");
    let q = json_string(sdp);
    m.append(q.as_str());
    m.append("}");
    m
}

/// One of the host's ICE candidates, given as its JSON object text.
pub fn ice_candidate_message(candidate_json: &str) -> (m: String)
    ensures
        m@ == "{\"type\":\"ice-candidate\",\"candidate\":"@ + candidate_json@ + "}"@,
{
    let mut m = owned("{\"type\":\"ice-candidate\",\"candidate\":");
    m.append(candidate_json);
    m.append("}");
    m
}

/// In the JSON array of strings every two neighbouring strings are separated by one
/// comma: adding a string to a non-empty list appends a comma and the quoted string,
/// the array of no strings is `[]`, and the array of one string is that string quoted
/// in brackets.
pub proof fn law_string_array_commas(ss: Seq<Seq<char>>, x: Seq<char>)
    ensures
        ss.len() > 0 ==> joined_quoted(ss.push(x)) == joined_quoted(ss) + seq![','] + json_quoted(x),
        ss.len() > 0 ==> json_string_array(ss.push(x)) == seq!['['] + joined_quoted(ss) + seq![','] + json_quoted(x) + seq![']'],
        json_string_array(Seq::empty()) == seq!['[', ']'],
        json_string_array(seq![x]) == seq!['['] + json_quoted(x) + seq![']'],
{
    assert(ss.push(x).drop_last() =~= ss);
    assert(seq!['['] + Seq::<char>::empty() + seq![']'] =~= seq!['[', ']']);
}

/// In the JSON array of bytes every two neighbouring numbers are separated by one comma:
/// adding a byte to a non-empty list appends a comma and its decimal number.
pub proof fn law_byte_array_commas(b: Seq<u8>, x: u8)
    ensures
        b.len() > 0 ==> joined_bytes(b.push(x)) == joined_bytes(b) + seq![','] + decimal(x as nat),
        json_byte_array(Seq::empty()) == seq!['[', ']'],
        json_byte_array(seq![x]) == seq!['['] + decimal(x as nat) + seq![']'],
{
    assert(b.push(x).drop_last() =~= b);
    assert(seq!['['] + Seq::<char>::empty() + seq![']'] =~= seq!['[', ']']);
}

} // verus!
