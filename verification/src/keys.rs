//! Participant keys: how they are written as JSON (JWK or multibase), and how
//! signing and verifying keys are read back from that form.
use vstd::prelude::*;
use base64::Engine;
use crate::json::{JsonMember, JsonValue, json_get, json_get_str, json_str, text_member};
use crate::text::{str_eq, decimal_text, decimal_digits};

verus! {

/// The bytes a standard (padded) base64 text holds, or the text of the error,
/// as `base64`'s `STANDARD` engine decodes it.
pub uninterp spec fn base64_reading(text: Seq<char>) -> Result<Seq<u8>, Seq<char>>;

/// Decodes standard base64 with `base64::engine::general_purpose::STANDARD`;
/// the result is named by `base64_reading`.
#[verifier::external_body]
pub(crate) fn base64_decode(text: &str) -> (r: Result<Vec<u8>, String>)
    ensures
        match r {
            Ok(b) => base64_reading(text@) == Ok::<Seq<u8>, Seq<char>>(b@),
            Err(m) => base64_reading(text@) == Err::<Seq<u8>, Seq<char>>(m@),
        },
{
    base64::engine::general_purpose::STANDARD.decode(text).map_err(|e| e.to_string())
}

/// The character of the standard base64 alphabet for a six-bit value.
pub open spec fn base64_char(v: int) -> char {
    if v < 26 {
        (65 + v) as char
    } else if v < 52 {
        (97 + v - 26) as char
    } else if v < 62 {
        (48 + v - 52) as char
    } else if v == 62 {
        '+'
    } else {
        '/'
    }
}

/// The standard (padded) base64 text of a byte string: each three bytes become
/// four characters, six bits each, high bits first; a last group of one or
/// two bytes is padded with `=` to four characters.
pub open spec fn base64_text(bytes: Seq<u8>) -> Seq<char>
    decreases bytes.len(),
{
    if bytes.len() == 0 {
        Seq::empty()
    } else if bytes.len() == 1 {
        seq![base64_char((bytes[0] as int) / 4), base64_char(((bytes[0] as int) % 4) * 16), '=', '=']
    } else if bytes.len() == 2 {
        seq![
            base64_char((bytes[0] as int) / 4),
            base64_char(((bytes[0] as int) % 4) * 16 + (bytes[1] as int) / 16),
            base64_char(((bytes[1] as int) % 16) * 4),
            '=',
        ]
    } else {
        seq![
            base64_char((bytes[0] as int) / 4),
            base64_char(((bytes[0] as int) % 4) * 16 + (bytes[1] as int) / 16),
            base64_char(((bytes[1] as int) % 16) * 4 + (bytes[2] as int) / 64),
            base64_char((bytes[2] as int) % 64),
        ] + base64_text(bytes.subrange(3, bytes.len() as int))
    }
}

/// Encodes bytes with `base64::engine::general_purpose::STANDARD` (standard
/// alphabet, padded); what it writes is `base64_text`, and decoding it with the
/// same engine gives the bytes back.
#[verifier::external_body]
pub(crate) fn base64_encode(bytes: &[u8]) -> (r: String)
    ensures
        r@ == base64_text(bytes@),
        (base64_reading(r@) == Ok::<Seq<u8>, Seq<char>>(bytes@)),
{
    base64::engine::general_purpose::STANDARD.encode(bytes)
}

/// The bytes a multibase text holds, or the text of the error, as
/// `multibase::decode` reads it (the base it names is not kept).
pub uninterp spec fn multibase_reading(text: Seq<char>) -> Result<Seq<u8>, Seq<char>>;

/// Decodes a multibase text with `multibase::decode`; the bytes, or the error
/// text, are named by `multibase_reading`.
#[verifier::external_body]
pub(crate) fn multibase_decode(text: &str) -> (r: Result<Vec<u8>, String>)
    ensures
        match r {
            Ok(b) => multibase_reading(text@) == Ok::<Seq<u8>, Seq<char>>(b@),
            Err(m) => multibase_reading(text@) == Err::<Seq<u8>, Seq<char>>(m@),
        },
{
    match multibase::decode(text) {
        Ok((_, bytes)) => Ok(bytes),
        Err(e) => Err(e.to_string()),
    }
}

/// The base58btc multibase text of a byte string (`z` then base58).
pub uninterp spec fn base58btc_text(bytes: Seq<u8>) -> Seq<char>;

/// Encodes bytes with `multibase::encode(Base::Base58Btc, ..)`; the result is
/// named by `base58btc_text`.
#[verifier::external_body]
pub(crate) fn multibase_encode_base58btc(bytes: &[u8]) -> (r: String)
    ensures
        r@ == base58btc_text(bytes@),
        (multibase_reading(r@) == Ok::<Seq<u8>, Seq<char>>(bytes@)),
        forall|i: int| 0 <= i < r@.len() ==> r@[i] != ':',
{
    multibase::encode(multibase::Base::Base58Btc, bytes)
}

/// Why `ed25519_dalek::VerifyingKey::from_bytes` refuses 32 bytes as a public
/// key, or nothing when it accepts them.
pub uninterp spec fn ed25519_key_refusal(bytes: Seq<u8>) -> Option<Seq<char>>;

/// Checks 32 bytes with `ed25519_dalek::VerifyingKey::from_bytes`; the refusal,
/// if any, is named by `ed25519_key_refusal`.
#[verifier::external_body]
pub(crate) fn check_verifying_key(bytes: &[u8; 32]) -> (r: Option<String>)
    ensures
        match r {
            None => ed25519_key_refusal(bytes@) is None,
            Some(m) => ed25519_key_refusal(bytes@) == Some(m@),
        },
{
    match ed25519_dalek::VerifyingKey::from_bytes(bytes) {
        Ok(_) => None,
        Err(e) => Some(e.to_string()),
    }
}

/// Errors of the federation bootstrap.
#[derive(Debug)]
pub enum BootstrapError {
    Io(String),
    Serialization(String),
    TrustBundle(String),
    FederationExists(String),
    InvalidQuorum(String),
    KeyError(String),
    Creation(String),
}

/// Copies exactly 32 bytes into an array.
fn bytes_32(v: &Vec<u8>) -> (r: [u8; 32])
    requires
        v@.len() == 32,
    ensures
        r@ == v@,
{
    let mut out = [0u8; 32];
    let mut i: usize = 0;
    while i < 32
        invariant
            v@.len() == 32,
            out@.len() == 32,
            i <= 32,
            forall|j: int| 0 <= j < i ==> out@[j] == v@[j],
        decreases 32 - i,
    {
        out[i] = v[i];
        i = i + 1;
    }
    assert(out@ == v@);
    out
}

/// The JSON Web Key of an Ed25519 public key, with the secret key as `d` when given.
pub open spec fn ed25519_jwk(public_key: Seq<u8>, secret_key: Option<Seq<u8>>, v: JsonValue) -> bool {
    &&& v is Object
    &&& json_get_str(v, "kty"@) == Some("OKP"@)
    &&& json_get_str(v, "crv"@) == Some("Ed25519"@)
    &&& json_get_str(v, "x"@) == Some(base64_text(public_key))
    &&& match secret_key {
        Some(d) => json_get_str(v, "d"@) == Some(base64_text(d)) && v->Object_0@.len() == 4,
        None => json_get(v, "d"@) is None && v->Object_0@.len() == 3,
    }
}

/// A participant's key pair as it is stored: its DID, the keys as JSON, and
/// the format of that JSON (`jwk` or `base58`).
#[derive(Debug)]
pub struct ParticipantKey {
    pub did: String,
    pub private_key: Option<JsonValue>,
    pub public_key: JsonValue,
    pub format: String,
    /// Additional metadata, as (key, value) pairs.
    pub metadata: Vec<(String, String)>,
}

/// The Ed25519 public key of a secret key.
pub uninterp spec fn ed25519_public(secret: Seq<u8>) -> Seq<u8>;

/// The Ed25519 signature a secret key makes over a message (Ed25519 signing
/// is deterministic).
pub uninterp spec fn ed25519_signature(secret: Seq<u8>, message: Seq<u8>) -> Seq<u8>;

/// The public key of a secret key, with `ed25519_dalek::SigningKey::from_bytes`
/// and `verifying_key`; named by `ed25519_public`. The key, being a curve
/// point derived from a secret, is one `VerifyingKey::from_bytes` accepts.
#[verifier::external_body]
pub(crate) fn ed25519_public_key(secret: &[u8; 32]) -> (r: [u8; 32])
    ensures
        r@ == ed25519_public(secret@),
        ed25519_key_refusal(r@) is None,
{
    ed25519_dalek::SigningKey::from_bytes(secret).verifying_key().to_bytes()
}

/// Signs a message with `ed25519_dalek::Signer::sign` under the secret key;
/// the signature is named by `ed25519_signature`, and it verifies under the
/// secret key's public key.
#[verifier::external_body]
pub(crate) fn ed25519_sign(secret: &[u8; 32], message: &[u8]) -> (r: [u8; 64])
    ensures
        r@ == ed25519_signature(secret@, message@),
        crate::bundle::ed25519_accepts(ed25519_public(secret@), message@, r@),
{
    ed25519_dalek::Signer::sign(&ed25519_dalek::SigningKey::from_bytes(secret), message).to_bytes()
}

/// The `did:key` DID of an Ed25519 public key.
pub open spec fn did_key_of(public_key: Seq<u8>) -> Seq<char> {
    "did:key:"@ + base58btc_text(public_key)
}

impl ParticipantKey {
    /// The stored form of the key pair of a secret key, in the format `jwk`
    /// or `base58`; the DID and public key are the secret key's. What is
    /// stored reads back: `to_signing_key` gives the secret key, and
    /// `load_verifying_key_from_json` gives the public key, from the public key
    /// alone or from any object that names the format and the public key.
    pub fn new(secret_key: &[u8; 32], format: &str) -> (r: Result<ParticipantKey, BootstrapError>)
        ensures
            (format@ == "jwk"@ || format@ == "base58"@) <==> r is Ok,
            r matches Err(e) ==> (e matches BootstrapError::KeyError(m)
                && m@ == "Unsupported key format: "@ + format@),
            r matches Ok(k) ==> {
                let public_key = ed25519_public(secret_key@);
                &&& k.did@ == did_key_of(public_key)
                &&& k.format@ == format@
                &&& k.metadata@.len() == 0
                &&& format@ == "jwk"@ ==> {
                    &&& k.private_key is Some
                    &&& ed25519_jwk(public_key, Some(secret_key@), k.private_key->0)
                    &&& ed25519_jwk(public_key, None, k.public_key)
                }
                &&& format@ == "base58"@ ==> {
                    &&& k.private_key matches Some(JsonValue::Str(s)) && s@ == base58btc_text(secret_key@)
                    &&& k.public_key matches JsonValue::Str(s) && s@ == base58btc_text(public_key)
                }
                &&& signing_key_outcome(k) == Ok::<Seq<u8>, Seq<char>>(secret_key@)
                &&& verifying_key_outcome(k.public_key) == Ok::<Seq<u8>, Seq<char>>(public_key)
                &&& forall|v: JsonValue| json_get_str(v, "format"@) == Some(format@)
                    && json_get(v, "public_key"@) == Some(k.public_key)
                    ==> #[trigger] verifying_key_outcome(v) == Ok::<Seq<u8>, Seq<char>>(public_key)
            },
    {
        let public_key = &ed25519_public_key(secret_key);
        let did = "did:key:".to_owned().concat(multibase_encode_base58btc(public_key.as_slice()).as_str());
        proof {
            reveal_strlit("jwk");
            reveal_strlit("base58");
        }
        if str_eq(format, "jwk") {
            let x = base64_encode(public_key.as_slice());
            let d = base64_encode(secret_key.as_slice());
            proof {
                reveal_strlit("format");
            }
            let private_jwk = JsonValue::Object(vec![
                text_member("kty", "OKP"),
                text_member("crv", "Ed25519"),
                text_member("x", x.as_str()),
                text_member("d", d.as_str()),
            ]);
            let public_jwk = JsonValue::Object(vec![
                text_member("kty", "OKP"),
                text_member("crv", "Ed25519"),
                text_member("x", x.as_str()),
            ]);
            proof {
                reveal_strlit("kty");
                reveal_strlit("crv");
                reveal_strlit("x");
                reveal_strlit("d");
                reveal_with_fuel(crate::json::member_from, 5);
                let ms = private_jwk->Object_0@;
                assert(ms.len() == 4);
                assert(ms[0].key@ == "kty"@ && ms[1].key@ == "crv"@ && ms[2].key@ == "x"@ && ms[3].key@ == "d"@);
                assert("x"@[0] != "d"@[0] && "kty"@[0] != "crv"@[0]);
                assert("kty"@ != "x"@ && "crv"@ != "x"@ && "kty"@ != "d"@ && "crv"@ != "d"@ && "x"@ != "d"@);
                assert(crate::json::member_from(ms, "x"@, 2) == Some(ms[2].value));
                assert(crate::json::member_from(ms, "x"@, 0) == Some(ms[2].value));
                assert(json_get_str(private_jwk, "x"@) == Some(base64_text(public_key@)));
                assert(json_get_str(private_jwk, "d"@) == Some(base64_text(secret_key@)));
                assert(json_get(public_jwk, "d"@) is None);
                assert(json_get_str(private_jwk, "kty"@) == Some("OKP"@));
                assert(json_get_str(private_jwk, "crv"@) == Some("Ed25519"@));
                assert(json_get_str(public_jwk, "kty"@) == Some("OKP"@));
                assert(json_get_str(public_jwk, "crv"@) == Some("Ed25519"@));
                assert(json_get_str(public_jwk, "x"@) == Some(base64_text(public_key@)));
                assert(ed25519_jwk(public_key@, Some(secret_key@), private_jwk));
                assert(ed25519_jwk(public_key@, None, public_jwk));
                let ps = public_jwk->Object_0@;
                assert("format"@[0] != "kty"@[0] && "format"@[0] != "crv"@[0] && "format"@[0] != "x"@[0]);
                assert(ps[0].key@ != "format"@ && ps[1].key@ != "format"@ && ps[2].key@ != "format"@);
                assert(crate::json::member_from(ps, "format"@, 3) is None);
                assert(json_get_str(public_jwk, "format"@) is None);
                assert(json_get(public_jwk, "kty"@) is Some);
                assert(jwk_public_key(public_jwk) == Ok::<Seq<u8>, Seq<char>>(public_key@));
            }
            let k = ParticipantKey { did, private_key: Some(private_jwk), public_key: public_jwk, format: format.to_owned(), metadata: Vec::new() };
            assert(k.did@ == did_key_of(public_key@));
            assert(k.format@ == format@);
            assert(format@ != "base58"@);
            assert(signing_key_outcome(k) == Ok::<Seq<u8>, Seq<char>>(secret_key@));
            Ok(k)
        } else if str_eq(format, "base58") {
            let private_b58 = JsonValue::Str(multibase_encode_base58btc(secret_key.as_slice()));
            let public_b58 = JsonValue::Str(multibase_encode_base58btc(public_key.as_slice()));
            let k = ParticipantKey { did, private_key: Some(private_b58), public_key: public_b58, format: format.to_owned(), metadata: Vec::new() };
            assert(k.did@ == did_key_of(public_key@));
            assert(format@ != "jwk"@);
            assert(signing_key_outcome(k) == Ok::<Seq<u8>, Seq<char>>(secret_key@));
            assert(verifying_key_outcome(k.public_key) == Ok::<Seq<u8>, Seq<char>>(public_key@));
            Ok(k)
        } else {
            Err(BootstrapError::KeyError("Unsupported key format: ".to_owned().concat(format)))
        }
    }

    /// The 32 secret key bytes this key holds.
    pub fn to_signing_key(&self) -> (r: Result<[u8; 32], BootstrapError>)
        ensures
            match signing_key_outcome(*self) {
                Ok(b) => r matches Ok(k) && k@ == b,
                Err(m) => r matches Err(BootstrapError::KeyError(x)) && x@ == m,
            },
    {
        let private_key = match &self.private_key {
            None => {
                return Err(BootstrapError::KeyError("No private key available".to_owned()));
            },
            Some(p) => p,
        };
        let decoded = if str_eq(self.format.as_str(), "jwk") {
            let d = match private_key.get_str("d") {
                Some(d) => d,
                None => {
                    return Err(BootstrapError::KeyError("Invalid JWK format: missing 'd' field".to_owned()));
                },
            };
            match base64_decode(d.as_str()) {
                Ok(b) => b,
                Err(e) => {
                    return Err(BootstrapError::KeyError("Failed to decode private key: ".to_owned().concat(e.as_str())));
                },
            }
        } else if str_eq(self.format.as_str(), "base58") {
            let b58 = match private_key.as_str() {
                Some(s) => s,
                None => {
                    return Err(BootstrapError::KeyError("Invalid Base58 format".to_owned()));
                },
            };
            match multibase_decode(b58.as_str()) {
                Ok(b) => b,
                Err(e) => {
                    return Err(BootstrapError::KeyError("Failed to decode Base58 key: ".to_owned().concat(e.as_str())));
                },
            }
        } else {
            return Err(BootstrapError::KeyError("Unsupported key format: ".to_owned().concat(self.format.as_str())));
        };
        if decoded.len() != 32 {
            return Err(BootstrapError::KeyError(
                "Invalid Ed25519 key length: ".to_owned().concat(decimal_text(decoded.len() as u64).as_str())));
        }
        Ok(bytes_32(&decoded))
    }
}

/// Exactly 32 bytes, or the refusal for a key of another length.
pub open spec fn secret_of_length(b: Seq<u8>) -> Result<Seq<u8>, Seq<char>> {
    if b.len() == 32 {
        Ok(b)
    } else {
        Err("Invalid Ed25519 key length: "@ + decimal_digits(b.len()))
    }
}

/// The secret key bytes a stored key yields, or the text of the refusal.
pub open spec fn signing_key_outcome(k: ParticipantKey) -> Result<Seq<u8>, Seq<char>> {
    match k.private_key {
        None => Err("No private key available"@),
        Some(p) => if k.format@ == "jwk"@ {
            match json_get_str(p, "d"@) {
                None => Err("Invalid JWK format: missing 'd' field"@),
                Some(d) => match base64_reading(d) {
                    Err(e) => Err("Failed to decode private key: "@ + e),
                    Ok(b) => secret_of_length(b),
                },
            }
        } else if k.format@ == "base58"@ {
            match json_str(p) {
                None => Err("Invalid Base58 format"@),
                Some(s) => match multibase_reading(s) {
                    Err(e) => Err("Failed to decode Base58 key: "@ + e),
                    Ok(b) => secret_of_length(b),
                },
            }
        } else {
            Err("Unsupported key format: "@ + k.format@)
        },
    }
}

/// A public key read from 32 decoded bytes: the length and the key itself are checked.
pub open spec fn public_key_of(decoded: Seq<u8>) -> Result<Seq<u8>, Seq<char>> {
    if decoded.len() != 32 {
        Err("Invalid public key length"@)
    } else {
        match ed25519_key_refusal(decoded) {
            Some(e) => Err("Invalid public key: "@ + e),
            None => Ok(decoded),
        }
    }
}

/// A public key given as the `x` member of a JWK.
pub open spec fn jwk_public_key(jwk: JsonValue) -> Result<Seq<u8>, Seq<char>> {
    match json_get_str(jwk, "x"@) {
        None => Err("Invalid JWK format: missing 'x' field"@),
        Some(x) => match base64_reading(x) {
            Err(e) => Err("Failed to decode public key: "@ + e),
            Ok(b) => public_key_of(b),
        },
    }
}

/// A public key given as a multibase (base58) text.
pub open spec fn base58_public_key(v: JsonValue) -> Result<Seq<u8>, Seq<char>> {
    match json_str(v) {
        None => Err("Invalid Base58 format"@),
        Some(s) => match multibase_reading(s) {
            Err(e) => Err("Failed to decode Base58 key: "@ + e),
            Ok(b) => public_key_of(b),
        },
    }
}

/// The public key a key description yields: an object with `format` and
/// `public_key`, a bare JWK, or a bare multibase text.
pub open spec fn verifying_key_outcome(v: JsonValue) -> Result<Seq<u8>, Seq<char>> {
    match json_get_str(v, "format"@) {
        Some(f) => match json_get(v, "public_key"@) {
            None => Err("No public_key field found"@),
            Some(pk) => if f == "jwk"@ {
                jwk_public_key(pk)
            } else if f == "base58"@ {
                base58_public_key(pk)
            } else {
                Err("Unsupported key format: "@ + f)
            },
        },
        None => if v is Object && json_get(v, "kty"@) is Some {
            jwk_public_key(v)
        } else if v is Str {
            base58_public_key(v)
        } else {
            Err("Unsupported key format"@)
        },
    }
}

/// Checks decoded public key bytes.
fn public_key_from(decoded: Vec<u8>) -> (r: Result<[u8; 32], String>)
    ensures
        match public_key_of(decoded@) {
            Ok(b) => r matches Ok(k) && k@ == b,
            Err(m) => r matches Err(x) && x@ == m,
        },
{
    if decoded.len() != 32 {
        return Err("Invalid public key length".to_owned());
    }
    let bytes = bytes_32(&decoded);
    match check_verifying_key(&bytes) {
        Some(e) => Err("Invalid public key: ".to_owned().concat(e.as_str())),
        None => Ok(bytes),
    }
}

/// Reads the public key of a JWK.
fn jwk_key(jwk: &JsonValue) -> (r: Result<[u8; 32], String>)
    ensures
        match jwk_public_key(*jwk) {
            Ok(b) => r matches Ok(k) && k@ == b,
            Err(m) => r matches Err(x) && x@ == m,
        },
{
    let x = match jwk.get_str("x") {
        Some(x) => x,
        None => {
            return Err("Invalid JWK format: missing 'x' field".to_owned());
        },
    };
    match base64_decode(x.as_str()) {
        Ok(b) => public_key_from(b),
        Err(e) => Err("Failed to decode public key: ".to_owned().concat(e.as_str())),
    }
}

/// Reads a public key given as a multibase text.
fn base58_key(v: &JsonValue) -> (r: Result<[u8; 32], String>)
    ensures
        match base58_public_key(*v) {
            Ok(b) => r matches Ok(k) && k@ == b,
            Err(m) => r matches Err(x) && x@ == m,
        },
{
    let s = match v.as_str() {
        Some(s) => s,
        None => {
            return Err("Invalid Base58 format".to_owned());
        },
    };
    match multibase_decode(s.as_str()) {
        Ok(b) => public_key_from(b),
        Err(e) => Err("Failed to decode Base58 key: ".to_owned().concat(e.as_str())),
    }
}

/// Reads a participant's Ed25519 public key from its JSON description; a
/// refusal is reported as `KeyError` with the text of `verifying_key_outcome`.
pub fn load_verifying_key_from_json(value: &JsonValue) -> (r: Result<[u8; 32], crate::bundle::VerifyError>)
    ensures
        match verifying_key_outcome(*value) {
            Ok(b) => r matches Ok(k) && k@ == b,
            Err(m) => r matches Err(crate::bundle::VerifyError::KeyError(x)) && x@ == m,
        },
{
    let found = match value.get_str("format") {
        Some(format) => {
            match value.get("public_key") {
                None => Err("No public_key field found".to_owned()),
                Some(pk) => {
                    if str_eq(format.as_str(), "jwk") {
                        jwk_key(pk)
                    } else if str_eq(format.as_str(), "base58") {
                        base58_key(pk)
                    } else {
                        Err("Unsupported key format: ".to_owned().concat(format.as_str()))
                    }
                },
            }
        },
        None => {
            if value.is_object() && value.get("kty").is_some() {
                jwk_key(value)
            } else {
                match value {
                    JsonValue::Str(_) => base58_key(value),
                    _ => Err("Unsupported key format".to_owned()),
                }
            }
        },
    };
    match found {
        Ok(k) => Ok(k),
        Err(m) => Err(crate::bundle::VerifyError::KeyError(m)),
    }
}

/// Refuses a key type other than `ed25519`, the only one keys are generated for.
pub fn check_key_type(key_type: &str) -> (r: Result<(), crate::governance::CliError>)
    ensures
        r is Ok <==> key_type@ == "ed25519"@,
        r matches Err(e) ==> (e matches crate::governance::CliError::Config(m)
            && m@ == "Unsupported key type: "@ + key_type@ + ". Only ed25519 is supported."@),
{
    if crate::text::str_eq(key_type, "ed25519") {
        Ok(())
    } else {
        Err(crate::governance::CliError::Config(
            "Unsupported key type: ".to_owned().concat(key_type).concat(". Only ed25519 is supported.")))
    }
}

/// The DID and the stored private key of a generated secret key: `did:icn:`
/// and the first eight bytes of its public key in hexadecimal;
/// `ed25519-priv:` and the secret key in base64.
pub fn generated_key_identity(secret_key: &[u8; 32]) -> (r: (String, String))
    ensures
        r.0@ == "did:icn:"@ + crate::bundle::hex_text(ed25519_public(secret_key@).subrange(0, 8)),
        r.1@ == "ed25519-priv:"@ + base64_text(secret_key@),
{
    let public_key = &ed25519_public_key(secret_key);
    let mut head: Vec<u8> = Vec::new();
    let mut i: usize = 0;
    while i < 8
        invariant
            i <= 8,
            public_key@.len() == 32,
            head@ == public_key@.subrange(0, i as int),
        decreases 8 - i,
    {
        head.push(public_key[i]);
        i = i + 1;
        assert(head@ == public_key@.subrange(0, i as int));
    }
    let did = "did:icn:".to_owned().concat(crate::bundle::hex_encode(head.as_slice()).as_str());
    let private_key = "ed25519-priv:".to_owned().concat(base64_encode(secret_key).as_str());
    (did, private_key)
}

/// Checks a key file being imported: its DID must be a `did:icn:` DID and its
/// private key an `ed25519-priv:` key.
pub fn check_imported_key(did: &str, private_key: &str) -> (r: Result<(), crate::governance::CliError>)
    ensures
        !crate::text::has_prefix(did@, "did:icn:"@) ==> (r matches Err(crate::governance::CliError::IoError(m))
            && m@ == "Invalid DID format in key file"@),
        crate::text::has_prefix(did@, "did:icn:"@) && !crate::text::has_prefix(private_key@, "ed25519-priv:"@)
            ==> (r matches Err(crate::governance::CliError::IoError(m))
            && m@ == "Invalid private key format in key file"@),
        crate::text::has_prefix(did@, "did:icn:"@) && crate::text::has_prefix(private_key@, "ed25519-priv:"@)
            ==> r is Ok,
{
    if !crate::text::starts_with(did, "did:icn:") {
        return Err(crate::governance::CliError::IoError("Invalid DID format in key file".to_owned()));
    }
    if !crate::text::starts_with(private_key, "ed25519-priv:") {
        return Err(crate::governance::CliError::IoError("Invalid private key format in key file".to_owned()));
    }
    Ok(())
}

} // verus!
