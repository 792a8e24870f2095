use base64::engine::general_purpose;
use base64::Engine;
use vstd::prelude::*;

verus! {

/// The standard base64 alphabet: `A-Z`, `a-z`, `0-9`, `+`, `/`, for `0 <= n < 64`.
pub open spec fn b64_char(n: int) -> char {
    if n < 26 {
        (65 + n) as char
    } else if n < 52 {
        (71 + n) as char
    } else if n < 62 {
        (n - 4) as char
    } else if n == 62 {
        '+'
    } else {
        '/'
    }
}

/// Standard base64 with `=` padding (RFC 4648): every three bytes become four
/// characters; a last group of one or two bytes is padded to four characters.
pub open spec fn base64_encode(b: Seq<u8>) -> Seq<char>
    decreases b.len(),
{
    if b.len() == 0 {
        Seq::empty()
    } else if b.len() == 1 {
        seq![b64_char((b[0] / 4) as int), b64_char((b[0] % 4) * 16), '=', '=']
    } else if b.len() == 2 {
        seq![
            b64_char((b[0] / 4) as int),
            b64_char((b[0] % 4) * 16 + b[1] / 16),
            b64_char((b[1] % 16) * 4),
            '=',
        ]
    } else {
        seq![
            b64_char((b[0] / 4) as int),
            b64_char((b[0] % 4) * 16 + b[1] / 16),
            b64_char((b[1] % 16) * 4 + b[2] / 64),
            b64_char((b[2] % 64) as int),
        ] + base64_encode(b.skip(3))
    }
}

/// Calls `base64::engine::general_purpose::STANDARD.encode`, the padded standard alphabet.
#[verifier::external_body]
pub(crate) fn base64_standard_encode(data: &[u8]) -> (s: String)
    ensures
        s@ == base64_encode(data@),
{
    general_purpose::STANDARD.encode(data)
}

/// Calls `base64::engine::general_purpose::STANDARD.decode`. That engine requires canonical
/// padding and rejects non-zero trailing bits, so it accepts exactly the strings that its
/// encoder produces, and gives back the bytes they encode. On failure the error's text is
/// returned; nothing is stated of that text.
#[verifier::external_body]
pub(crate) fn base64_standard_decode(s: &str) -> (r: Result<Vec<u8>, String>)
    ensures
        r matches Ok(v) ==> base64_encode(v@) == s@,
        r is Ok <==> exists|v: Seq<u8>| #[trigger] base64_encode(v) == s@,
{
    match general_purpose::STANDARD.decode(s) {
        Ok(v) => Ok(v),
        Err(e) => Err(e.to_string()),
    }
}

proof fn lemma_b64_char_injective(m: int, n: int)
    requires
        0 <= m < 64,
        0 <= n < 64,
        b64_char(m) == b64_char(n),
    ensures
        m == n,
{
}

proof fn lemma_b64_char_not_pad(n: int)
    requires
        0 <= n < 64,
    ensures
        b64_char(n) != '=',
{
}

pub proof fn lemma_base64_len(b: Seq<u8>)
    ensures
        base64_encode(b).len() == if b.len() % 3 == 0 { (b.len() / 3) * 4 } else { (b.len() / 3) * 4 + 4 },
    decreases b.len(),
{
    if b.len() >= 3 {
        lemma_base64_len(b.skip(3));
    }
}

proof fn lemma_base64_head(b: Seq<u8>)
    requires
        b.len() > 0,
    ensures
        base64_encode(b).len() >= 4,
        base64_encode(b)[0] == b64_char((b[0] / 4) as int),
        b.len() >= 2 ==> base64_encode(b)[1] == b64_char(((b[0] % 4) * 16 + b[1] / 16) as int),
        b.len() == 1 ==> base64_encode(b)[1] == b64_char(((b[0] % 4) * 16) as int),
        b.len() == 1 ==> base64_encode(b)[2] == '=',
        b.len() == 2 ==> base64_encode(b)[2] == b64_char(((b[1] % 16) * 4) as int),
        b.len() >= 3 ==> base64_encode(b)[2] == b64_char(((b[1] % 16) * 4 + b[2] / 64) as int),
        b.len() <= 2 ==> base64_encode(b)[3] == '=',
        b.len() >= 3 ==> base64_encode(b)[3] == b64_char((b[2] % 64) as int),
{
    lemma_base64_len(b);
}

/// Distinct byte strings have distinct encodings.
pub proof fn lemma_base64_injective(a: Seq<u8>, b: Seq<u8>)
    requires
        base64_encode(a) == base64_encode(b),
    ensures
        a == b,
    decreases a.len(),
{
    let ea = base64_encode(a);
    let eb = base64_encode(b);
    lemma_base64_len(a);
    lemma_base64_len(b);
    if a.len() == 0 || b.len() == 0 {
        assert(a.len() == 0 && b.len() == 0);
        assert(a =~= b);
        return;
    }
    lemma_base64_head(a);
    lemma_base64_head(b);
    // The first character fixes the top six bits of the first byte.
    assert(ea[0] == eb[0]);
    lemma_b64_char_injective((a[0] / 4) as int, (b[0] / 4) as int);
    if a.len() == 1 || b.len() == 1 {
        if a.len() == 1 && b.len() == 1 {
            assert(ea[1] == eb[1]);
            lemma_b64_char_injective(((a[0] % 4) * 16) as int, ((b[0] % 4) * 16) as int);
            assert(a =~= b);
        } else if a.len() == 1 {
            if b.len() == 2 {
                lemma_b64_char_not_pad(((b[1] % 16) * 4) as int);
            } else {
                lemma_b64_char_not_pad(((b[1] % 16) * 4 + b[2] / 64) as int);
            }
            assert(ea[2] == eb[2]);
        } else {
            if a.len() == 2 {
                lemma_b64_char_not_pad(((a[1] % 16) * 4) as int);
            } else {
                lemma_b64_char_not_pad(((a[1] % 16) * 4 + a[2] / 64) as int);
            }
            assert(ea[2] == eb[2]);
        }
        return;
    }
    assert(ea[1] == eb[1]);
    lemma_b64_char_injective(((a[0] % 4) * 16 + a[1] / 16) as int, ((b[0] % 4) * 16 + b[1] / 16) as int);
    if a.len() == 2 || b.len() == 2 {
        if a.len() == 2 && b.len() == 2 {
            assert(ea[2] == eb[2]);
            lemma_b64_char_injective(((a[1] % 16) * 4) as int, ((b[1] % 16) * 4) as int);
            assert(a =~= b);
        } else if a.len() == 2 {
            lemma_b64_char_not_pad((b[2] % 64) as int);
            assert(ea[3] == eb[3]);
        } else {
            lemma_b64_char_not_pad((a[2] % 64) as int);
            assert(ea[3] == eb[3]);
        }
        return;
    }
    assert(ea[2] == eb[2]);
    assert(ea[3] == eb[3]);
    lemma_b64_char_injective(((a[1] % 16) * 4 + a[2] / 64) as int, ((b[1] % 16) * 4 + b[2] / 64) as int);
    lemma_b64_char_injective((a[2] % 64) as int, (b[2] % 64) as int);
    assert(ea.skip(4) =~= base64_encode(a.skip(3)));
    assert(eb.skip(4) =~= base64_encode(b.skip(3)));
    lemma_base64_injective(a.skip(3), b.skip(3));
    assert(a =~= a.take(3) + a.skip(3));
    assert(b =~= b.take(3) + b.skip(3));
    assert(a.take(3) =~= b.take(3));
}

} // verus!
