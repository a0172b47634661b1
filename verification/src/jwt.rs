use vstd::prelude::*;
use vstd::string::StringSliceAdditionalSpecFns;
use vstd::utf8::encode_utf8;
use crate::base64url::b64url;
use crate::json::{json_quote, int_text, json_string_value, json_int_value};

verus! {

#[verifier::external_type_specification]
#[verifier::external_body]
pub struct ExJwtError(jsonwebtoken::errors::Error);

/// The bytes of a text whose characters all are ASCII.
pub open spec fn ascii_bytes(s: Seq<char>) -> Seq<u8> {
    s.map_values(|c: char| c as u8)
}

/// The base64url HMAC-SHA256 signature of `message` under `secret`, as
/// `jsonwebtoken::crypto::sign` computes it.
pub uninterp spec fn hs256_signature(message: Seq<u8>, secret: Seq<u8>) -> Seq<char>;

/// `jsonwebtoken::crypto::sign` with HS256. Its source returns `Ok` for
/// the HMAC algorithms; the signature itself is only named.
#[verifier::external_body]
fn sign_hs256(message: &[u8], secret: &[u8]) -> (r: Result<String, jsonwebtoken::errors::Error>)
    ensures
        r is Ok,
        r is Ok ==> r.unwrap()@ == hs256_signature(message@, secret@),
{
    jsonwebtoken::crypto::sign(
        message,
        &jsonwebtoken::EncodingKey::from_secret(secret),
        jsonwebtoken::Algorithm::HS256,
    )
}

/// Whether no two members share a key.
pub open spec fn distinct_keys(fields: Seq<(Seq<char>, Seq<char>)>) -> bool {
    forall|i: int, j: int| 0 <= i < j < fields.len() ==> fields[i].0 != fields[j].0
}

/// Whether a value text is a single JSON string or integer as this
/// library writes them.
pub open spec fn written_value(v: Seq<char>) -> bool {
    (exists|s: Seq<char>| v == #[trigger] json_quote(s)) || (exists|i: int| v == #[trigger] int_text(i))
}

/// Whether every member's value is a JSON string or integer as this
/// library writes them.
pub open spec fn written_values(fields: Seq<(Seq<char>, Seq<char>)>) -> bool {
    forall|i: int| 0 <= i < fields.len() ==> written_value(#[trigger] fields[i].1)
}

/// Whether a token carries an HS256 signature under `secret`: it is a
/// message, a dot, and a last part without dots that is the HS256
/// signature of the message's UTF-8 bytes.
pub open spec fn hs256_signed(token: Seq<char>, secret: Seq<u8>) -> bool {
    exists|m: Seq<char>|
        {
            let sig = #[trigger] hs256_signature(encode_utf8(m), secret);
            token == m + seq!['.'] + sig && !sig.contains('.')
        }
}

/// Whether two member lists give every key the same raw value.
pub open spec fn same_members(a: Seq<(Seq<char>, Seq<char>)>, b: Seq<(Seq<char>, Seq<char>)>) -> bool {
    forall|k: Seq<char>| #[trigger] field(a, k) == field(b, k)
}

/// `jsonwebtoken::decode` under `Validation::default()` (HS256 signature
/// checked, `exp` required and not past, with 60 seconds of leeway), with
/// the claims read as a map from each top-level key to the raw JSON text
/// of its value. Whether a token passes depends on the clock, so success
/// is not claimed. What is claimed is what the decoder's source shows of
/// a token it accepts: it was split at its last dot and the part after it
/// is the HS256 signature of the part before it under `secret`; and when
/// the token is the HS256 token, signed with
/// this secret, of the JSON object with some members under distinct keys,
/// each value a JSON string or integer as this library writes it, the
/// members read back are those members, each value as the exact text
/// written.
#[verifier::external_body]
pub(crate) fn decode_claim_fields(token: &str, secret: &[u8]) -> (r: Result<
    Vec<(String, String)>,
    jsonwebtoken::errors::Error,
>)
    ensures
        r is Ok ==> hs256_signed(token@, secret@),
        r matches Ok(f) ==> forall|fields: Seq<(Seq<char>, Seq<char>)>|
            distinct_keys(fields) && written_values(fields) && token@ == #[trigger] signed_token(
                object_text(fields),
                secret@,
            ) ==> same_members(fields_view(f@), fields),
{
    match jsonwebtoken::decode::<std::collections::BTreeMap<String, Box<serde_json::value::RawValue>>>(
        token,
        &jsonwebtoken::DecodingKey::from_secret(secret),
        &jsonwebtoken::Validation::default(),
    ) {
        Ok(data) => Ok(data.claims.into_iter().map(|(k, v)| (k, v.get().to_string())).collect()),
        Err(e) => Err(e),
    }
}

/// The JSON header of every token: type JWT, algorithm HS256.
pub open spec fn header_json() -> Seq<char> {
    "{\"typ\":\"JWT\",\"alg\":\"HS256\"}"@
}

/// The text that is signed: the encoded header, a dot, the encoded
/// payload.
pub open spec fn signing_input(payload: Seq<char>) -> Seq<char> {
    b64url(encode_utf8(header_json())) + seq!['.'] + b64url(encode_utf8(payload))
}

/// The compact token for a JSON payload signed with `secret`.
pub open spec fn signed_token(payload: Seq<char>, secret: Seq<u8>) -> Seq<char> {
    let m = signing_input(payload);
    m + seq!['.'] + hs256_signature(ascii_bytes(m), secret)
}

/// One member of a JSON object: the quoted key, a colon, the value text.
pub open spec fn member_text(key: Seq<char>, value: Seq<char>) -> Seq<char> {
    json_quote(key) + seq![':'] + value
}

/// The members of a JSON object, separated by commas.
pub open spec fn members_text(fields: Seq<(Seq<char>, Seq<char>)>) -> Seq<char>
    decreases fields.len(),
{
    if fields.len() == 0 {
        Seq::empty()
    } else if fields.len() == 1 {
        member_text(fields[0].0, fields[0].1)
    } else {
        member_text(fields[0].0, fields[0].1) + seq![','] + members_text(fields.drop_first())
    }
}

/// The JSON object with the given members, in order.
pub open spec fn object_text(fields: Seq<(Seq<char>, Seq<char>)>) -> Seq<char> {
    seq!['{'] + members_text(fields) + seq!['}']
}

/// The raw value of the first member named `key`.
pub open spec fn field(fields: Seq<(Seq<char>, Seq<char>)>, key: Seq<char>) -> Option<Seq<char>>
    decreases fields.len(),
{
    if fields.len() == 0 {
        None
    } else if fields[0].0 == key {
        Some(fields[0].1)
    } else {
        field(fields.drop_first(), key)
    }
}

/// The members a decoder hands back, as text.
pub open spec fn fields_view(fields: Seq<(String, String)>) -> Seq<(Seq<char>, Seq<char>)> {
    fields.map_values(|p: (String, String)| (p.0@, p.1@))
}

/// Appends `s`'s characters to `out`.
pub fn push_str(out: &mut Vec<char>, s: &str)
    ensures
        final(out)@ == old(out)@ + s@,
{
    let c = crate::text::chars_of(s);
    crate::text::push_range(out, c.as_slice(), 0, c.len());
    proof {
        assert(c@.subrange(0, c@.len() as int) =~= c@);
    }
}

/// The raw value text of the member named `key`.
pub fn find_field(fields: &Vec<(String, String)>, key: &str) -> (r: Option<Vec<char>>)
    ensures
        crate::json::opt_chars(r) == field(fields_view(fields@), key@),
{
    let ghost fv = fields_view(fields@);
    let mut i: usize = 0;
    proof {
        assert(fv.skip(0) =~= fv);
    }
    while i < fields.len()
        invariant
            fv == fields_view(fields@),
            i <= fields@.len(),
            field(fv, key@) == field(fv.skip(i as int), key@),
        decreases fields.len() - i,
    {
        proof {
            assert(fv.skip(i as int)[0] == (fields@[i as int].0@, fields@[i as int].1@));
            assert(fv.skip(i as int).drop_first() =~= fv.skip(i + 1));
        }
        if crate::text::str_equal(fields[i].0.as_str(), key) {
            return Some(crate::text::chars_of(fields[i].1.as_str()));
        }
        i = i + 1;
    }
    None
}

/// Encodes the UTF-8 bytes of `text` in base64url and appends them.
fn push_encoded(out: &mut Vec<char>, text: &[char])
    ensures
        final(out)@ == old(out)@ + b64url(encode_utf8(text@)),
{
    let s = crate::text::string_from(text);
    let bytes = s.as_str().as_bytes();
    proof {
        assert(bytes@ == encode_utf8(text@));
    }
    let enc = crate::base64url::encode(bytes);
    crate::text::push_range(out, enc.as_slice(), 0, enc.len());
    proof {
        assert(enc@.subrange(0, enc@.len() as int) =~= enc@);
    }
}

/// The bytes of an ASCII text.
fn ascii_to_bytes(s: &[char]) -> (b: Vec<u8>)
    ensures
        b@ == ascii_bytes(s@),
{
    let mut b: Vec<u8> = Vec::new();
    let mut i: usize = 0;
    while i < s.len()
        invariant
            i <= s@.len(),
            b@ == ascii_bytes(s@.take(i as int)),
        decreases s.len() - i,
    {
        b.push(s[i] as u8);
        i = i + 1;
        proof {
            assert(b@ =~= ascii_bytes(s@.take(i as int)));
        }
    }
    proof {
        assert(s@.take(s@.len() as int) =~= s@);
    }
    b
}

/// Frames and signs a JSON payload as a compact HS256 token.
pub fn sign_payload(payload: &[char], secret: &[u8]) -> (r: Result<String, jsonwebtoken::errors::Error>)
    ensures
        r matches Ok(t) && t@ == signed_token(payload@, secret@),
{
    let header = "{\"typ\":\"JWT\",\"alg\":\"HS256\"}";
    let hc = crate::text::chars_of(header);
    let mut m: Vec<char> = Vec::new();
    push_encoded(&mut m, hc.as_slice());
    m.push('.');
    push_encoded(&mut m, payload);
    proof {
        assert(m@ =~= signing_input(payload@));
    }
    let mb = ascii_to_bytes(m.as_slice());
    let sig = sign_hs256(mb.as_slice(), secret);
    match sig {
        Ok(sig) => {
            let mut t = m;
            t.push('.');
            push_str(&mut t, sig.as_str());
            proof {
                assert(t@ =~= signed_token(payload@, secret@));
            }
            Ok(crate::text::string_from(t.as_slice()))
        },
        Err(e) => Err(e),
    }
}

} // verus!
