//! Verification of a federation trust bundle: its content identifier, the
//! events it references, the signatures of its participants and its quorum.
use vstd::prelude::*;
use crate::text::{has_prefix, texts, str_eq, contains_text, decimal_text, decimal_digits};

verus! {

/// The lower-case hexadecimal digit for `n < 16`.
pub open spec fn hex_digit(n: nat) -> char {
    if n < 10 {
        crate::text::digit_char(n)
    } else if n == 10 { 'a' } else if n == 11 { 'b' } else if n == 12 { 'c' }
    else if n == 13 { 'd' } else if n == 14 { 'e' } else { 'f' }
}

/// Each byte as two lower-case hexadecimal digits, high half first.
pub open spec fn hex_text(bytes: Seq<u8>) -> Seq<char>
    decreases bytes.len(),
{
    if bytes.len() == 0 {
        Seq::empty()
    } else {
        hex_text(bytes.drop_last()) + seq![
            hex_digit((bytes.last() / 16) as nat),
            hex_digit((bytes.last() % 16) as nat),
        ]
    }
}

/// Calls `hex::encode`, which writes each byte as two lower-case hexadecimal
/// digits, the high half first.
#[verifier::external_body]
pub(crate) fn hex_encode(bytes: &[u8]) -> (r: String)
    ensures
        r@ == hex_text(bytes@),
{
    hex::encode(bytes)
}

/// Whether `signature` is an Ed25519 signature of `message` under the public
/// key `public_key`, as `ed25519_dalek` decides it.
pub uninterp spec fn ed25519_accepts(public_key: Seq<u8>, message: Seq<u8>, signature: Seq<u8>) -> bool;

/// Checks an Ed25519 signature with `ed25519_dalek`: the key is read with
/// `VerifyingKey::from_bytes` (bytes that are no valid key are refused) and the
/// signature checked with `Verifier::verify`; the answer is named by
/// `ed25519_accepts`.
#[verifier::external_body]
pub(crate) fn ed25519_verify(public_key: &[u8; 32], message: &[u8], signature: &[u8; 64]) -> (r: bool)
    ensures
        r == ed25519_accepts(public_key@, message@, signature@),
{
    match ed25519_dalek::VerifyingKey::from_bytes(public_key) {
        Ok(key) => ed25519_dalek::Verifier::verify(
            &key, message, &ed25519_dalek::Signature::from_bytes(signature)).is_ok(),
        Err(_) => false,
    }
}

/// What went wrong while verifying a trust bundle.
#[derive(Debug)]
pub enum VerifyError {
    Io(String),
    Serialization(String),
    BundleNotFound(String),
    EventNotFound(String),
    KeyError(String),
    TrustError(String),
    BootstrapError(String),
    Verification(String),
}

/// The text of the error raised for a signature of `n` bytes.
pub open spec fn signature_length_message(n: nat) -> Seq<char> {
    "Invalid signature length: expected 64 bytes, got "@ + decimal_digits(n)
}

/// Copies a 64-byte Ed25519 signature out of a byte slice.
pub fn to_signature_bytes(slice: &[u8]) -> (r: Result<[u8; 64], VerifyError>)
    ensures
        slice@.len() == 64 <==> r is Ok,
        r matches Ok(b) ==> b@ == slice@,
        r matches Err(e) ==> (e matches VerifyError::KeyError(m)
            && m@ == signature_length_message(slice@.len())),
{
    if slice.len() != 64 {
        let n = slice.len() as u64;
        let m = "Invalid signature length: expected 64 bytes, got ".to_owned().concat(decimal_text(n).as_str());
        proof {
            reveal_strlit("Invalid signature length: expected 64 bytes, got ");
        }
        return Err(VerifyError::KeyError(m));
    }
    let mut bytes = [0u8; 64];
    let mut i: usize = 0;
    while i < 64
        invariant
            slice@.len() == 64,
            bytes@.len() == 64,
            i <= 64,
            forall|j: int| 0 <= j < i ==> bytes@[j] == slice@[j],
        decreases 64 - i,
    {
        bytes[i] = slice[i];
        i = i + 1;
    }
    assert(bytes@ == slice@);
    Ok(bytes)
}

/// One signature carried by a bundle: the signer's DID and the signature bytes.
#[derive(Debug, Clone)]
pub struct BundleSignature {
    pub signer: String,
    pub signature: Vec<u8>,
}

/// The weight of one participant under a weighted quorum.
#[derive(Debug, Clone)]
pub struct ParticipantWeight {
    pub did: String,
    pub weight: u64,
}

/// How many participants must sign a bundle.
#[derive(Debug, Clone)]
pub enum QuorumType {
    All,
    Majority,
    Threshold(u8),
    Weighted(Vec<ParticipantWeight>),
}

/// A participant's Ed25519 verifying key.
#[derive(Debug, Clone)]
pub struct ParticipantVerifyingKey {
    pub did: String,
    pub public_key: [u8; 32],
}

/// What the verifier reads of a trust bundle. `bundle_hash` is the hash the
/// participants signed, and `required_signatures` the number of signatures
/// the bundle's quorum configuration asks for.
#[derive(Debug, Clone)]
pub struct TrustBundle {
    pub federation_id: String,
    pub bundle_cid: Option<String>,
    pub bundle_hash: Vec<u8>,
    pub referenced_events: Vec<String>,
    pub signatures: Vec<BundleSignature>,
    pub quorum_type: QuorumType,
    pub required_signatures: usize,
}

/// The findings of a bundle verification.
#[derive(Debug)]
pub struct VerificationResults {
    pub is_valid: bool,
    pub cid_valid: bool,
    pub signatures_valid: bool,
    pub quorum_valid: bool,
    pub events_valid: bool,
    pub valid_signatures: usize,
    pub required_signatures: usize,
    pub verified_events: Vec<String>,
    pub valid_signers: Vec<String>,
    pub invalid_signers: Vec<String>,
    pub missing_events: Vec<String>,
}

/// Whether the hash matches the bundle's CID: the hexadecimal hash must begin
/// with the CID less its first four characters. A bundle without a CID passes.
pub open spec fn cid_matches(cid: Option<Seq<char>>, hash: Seq<u8>) -> bool {
    match cid {
        None => true,
        Some(c) => has_prefix(hex_text(hash), c.subrange(byte_cut(c, 4)->0, c.len() as int)),
    }
}

/// How many bytes UTF-8 spends on a character.
pub open spec fn utf8_width(c: char) -> int {
    if (c as u32) < 0x80 {
        1
    } else if (c as u32) < 0x800 {
        2
    } else if (c as u32) < 0x10000 {
        3
    } else {
        4
    }
}

/// The number of leading characters of `s` that take exactly `n` bytes in
/// UTF-8, when byte `n` falls on a character boundary.
pub open spec fn byte_cut(s: Seq<char>, n: int) -> Option<int>
    decreases s.len(),
{
    if n == 0 {
        Some(0)
    } else if n < 0 || s.len() == 0 || utf8_width(s[0]) > n {
        None
    } else {
        match byte_cut(s.drop_first(), n - utf8_width(s[0])) {
            Some(k) => Some(k + 1),
            None => None,
        }
    }
}

fn char_width(c: char) -> (w: usize)
    ensures
        w == utf8_width(c),
{
    let v = c as u32;
    if v < 0x80 {
        1
    } else if v < 0x800 {
        2
    } else if v < 0x10000 {
        3
    } else {
        4
    }
}

/// The characters of `cv` that follow its first four bytes.
fn after_four_bytes(cv: &Vec<char>) -> (r: String)
    requires
        byte_cut(cv@, 4) is Some,
    ensures
        r@ == cv@.subrange(byte_cut(cv@, 4)->0, cv@.len() as int),
{
    let n = cv.len();
    let mut k: usize = 0;
    let mut acc: usize = 0;
    assert(cv@.subrange(0, cv@.len() as int) == cv@);
    while acc < 4
        invariant
            k <= cv@.len(),
            n == cv@.len(),
            acc <= 4,
            byte_cut(cv@, 4) is Some,
            byte_cut(cv@, 4) == match byte_cut(cv@.subrange(k as int, cv@.len() as int), 4 - acc) {
                Some(j) => Some(j + k),
                None => None::<int>,
            },
        decreases 4 - acc,
    {
        let ghost rest = cv@.subrange(k as int, cv@.len() as int);
        assert(rest.len() > 0);
        let w = char_width(cv[k]);
        assert(rest[0] == cv@[k as int]);
        assert(rest.drop_first() == cv@.subrange(k + 1, cv@.len() as int));
        assert(w <= 4 - acc);
        acc = acc + w;
        k = k + 1;
    }
    crate::text::string_from_chars(cv, k, cv.len())
}

/// The referenced events that are among the events at hand, in bundle order.
pub open spec fn found_events(refs: Seq<Seq<char>>, hashes: Seq<Seq<char>>) -> Seq<Seq<char>> {
    refs.filter(|id: Seq<char>| hashes.contains(id))
}

/// The referenced events that are not among the events at hand, in bundle order.
pub open spec fn absent_events(refs: Seq<Seq<char>>, hashes: Seq<Seq<char>>) -> Seq<Seq<char>> {
    refs.filter(|id: Seq<char>| !hashes.contains(id))
}

/// The key known for `did`: the entries are read in order into a map keyed
/// by DID, so a DID given more than once has the key of its last entry.
pub open spec fn key_for(keys: Seq<ParticipantVerifyingKey>, did: Seq<char>) -> Option<Seq<u8>>
    decreases keys.len(),
{
    if keys.len() == 0 {
        None
    } else if keys.last().did@ == did {
        Some(keys.last().public_key@)
    } else {
        key_for(keys.drop_last(), did)
    }
}

/// How one signature fares: nothing when no key is known for its signer,
/// else whether it is a 64-byte signature of the hash under that key.
pub open spec fn signature_outcome(
    keys: Seq<ParticipantVerifyingKey>,
    hash: Seq<u8>,
    s: BundleSignature,
) -> Option<bool> {
    match key_for(keys, s.signer@) {
        None => None,
        Some(k) => Some(s.signature@.len() == 64 && ed25519_accepts(k, hash, s.signature@)),
    }
}

/// The signers whose signature is `good` (valid when true, invalid when false), in order.
pub open spec fn signers_judged(
    keys: Seq<ParticipantVerifyingKey>,
    hash: Seq<u8>,
    sigs: Seq<BundleSignature>,
    good: bool,
) -> Seq<Seq<char>>
    decreases sigs.len(),
{
    if sigs.len() == 0 {
        Seq::empty()
    } else {
        let before = signers_judged(keys, hash, sigs.drop_last(), good);
        if signature_outcome(keys, hash, sigs.last()) == Some(good) {
            before.push(sigs.last().signer@)
        } else {
            before
        }
    }
}

/// The sum of all weights.
pub open spec fn weight_total(ws: Seq<ParticipantWeight>) -> nat
    decreases ws.len(),
{
    if ws.len() == 0 {
        0
    } else {
        weight_total(ws.drop_last()) + ws.last().weight as nat
    }
}

/// The sum of the weights of the participants in `signers`.
pub open spec fn weight_signed(ws: Seq<ParticipantWeight>, signers: Seq<Seq<char>>) -> nat
    decreases ws.len(),
{
    if ws.len() == 0 {
        0
    } else {
        weight_signed(ws.drop_last(), signers)
            + if signers.contains(ws.last().did@) { ws.last().weight as nat } else { 0 }
    }
}

/// The weight a weighted quorum requires: more than half of the total.
pub open spec fn weight_required(ws: Seq<ParticipantWeight>) -> nat {
    weight_total(ws) / 2 + 1
}

/// A bundle whose weights can be summed in 64 bits.
pub open spec fn weights_fit(q: QuorumType) -> bool {
    match q {
        QuorumType::Weighted(ws) => weight_total(ws@) <= u64::MAX,
        _ => true,
    }
}

proof fn lemma_weight_signed_le(ws: Seq<ParticipantWeight>, signers: Seq<Seq<char>>)
    ensures
        weight_signed(ws, signers) <= weight_total(ws),
    decreases ws.len(),
{
    if ws.len() > 0 {
        lemma_weight_signed_le(ws.drop_last(), signers);
    }
}

proof fn lemma_weight_total_prefix(ws: Seq<ParticipantWeight>, i: int)
    requires
        0 <= i <= ws.len(),
    ensures
        weight_total(ws.subrange(0, i)) <= weight_total(ws),
    decreases ws.len() - i,
{
    if i < ws.len() {
        lemma_weight_total_prefix(ws, i + 1);
        assert(ws.subrange(0, i + 1).drop_last() == ws.subrange(0, i));
    } else {
        assert(ws.subrange(0, i) == ws);
    }
}

/// Whether the bundle's events are all at hand, in the sense of `verify_bundle`.
fn event_is_known(hashes: &Vec<String>, id: &String) -> (r: bool)
    ensures
        r == texts(hashes@).contains(id@),
{
    contains_text(hashes, id.as_str())
}

/// Looks up the key of `did` (its last entry).
fn find_key(keys: &Vec<ParticipantVerifyingKey>, did: &String) -> (r: Option<[u8; 32]>)
    ensures
        match r {
            Some(k) => key_for(keys@, did@) == Some(k@),
            None => key_for(keys@, did@) is None,
        },
{
    let mut i: usize = keys.len();
    assert(keys@.subrange(0, keys@.len() as int) == keys@);
    while i > 0
        invariant
            i <= keys@.len(),
            key_for(keys@, did@) == key_for(keys@.subrange(0, i as int), did@),
        decreases i,
    {
        let ghost head = keys@.subrange(0, i as int);
        assert(head.last() == keys@[i - 1]);
        assert(head.drop_last() == keys@.subrange(0, i - 1));
        if str_eq(keys[i - 1].did.as_str(), did.as_str()) {
            return Some(keys[i - 1].public_key);
        }
        i = i - 1;
    }
    None
}

/// How one signature fares; see `signature_outcome`.
fn judge_signature(keys: &Vec<ParticipantVerifyingKey>, hash: &Vec<u8>, s: &BundleSignature) -> (r: Option<bool>)
    ensures
        r == signature_outcome(keys@, hash@, *s),
{
    match find_key(keys, &s.signer) {
        None => None,
        Some(key) => {
            match to_signature_bytes(s.signature.as_slice()) {
                Ok(sig) => Some(ed25519_verify(&key, hash.as_slice(), &sig)),
                Err(_) => Some(false),
            }
        },
    }
}

/// The quorum finding and the number it was held to.
pub open spec fn quorum_finding(
    q: QuorumType,
    valid: Seq<Seq<char>>,
    required: usize,
) -> (bool, usize) {
    match q {
        QuorumType::Weighted(ws) => (
            weight_signed(ws@, valid) >= weight_required(ws@),
            weight_required(ws@) as usize,
        ),
        _ => (valid.len() >= required, required),
    }
}

/// Under a weighted quorum a bundle has its quorum exactly when the weight of
/// its valid signers is more than half of the total weight; the weight it is
/// held to (when it fits in `usize`) is the least weight that is more than
/// half of the total.
pub proof fn law_weighted_quorum_is_strict_majority(q: QuorumType, valid: Seq<Seq<char>>, required: usize)
    requires
        q is Weighted,
    ensures
        ({
            let ws = q->Weighted_0@;
            let (ok, held) = quorum_finding(q, valid, required);
            &&& ok <==> 2 * weight_signed(ws, valid) > weight_total(ws)
            &&& weight_total(ws) < usize::MAX ==> 2 * (held as int) > weight_total(ws)
                && 2 * (held as int - 1) <= weight_total(ws)
        }),
{
}

/// The signed weight counts each participant whose DID signed, once: it is
/// at most the total weight, it is the total when every participant signed,
/// and nothing when no participant did.
pub proof fn law_signed_weight_bounds(ws: Seq<ParticipantWeight>, valid: Seq<Seq<char>>)
    ensures
        weight_signed(ws, valid) <= weight_total(ws),
        (forall|i: int| 0 <= i < ws.len() ==> valid.contains(#[trigger] ws[i].did@))
            ==> weight_signed(ws, valid) == weight_total(ws),
        (forall|i: int| 0 <= i < ws.len() ==> !valid.contains(#[trigger] ws[i].did@))
            ==> weight_signed(ws, valid) == 0,
    decreases ws.len(),
{
    lemma_weight_signed_le(ws, valid);
    if ws.len() > 0 {
        law_signed_weight_bounds(ws.drop_last(), valid);
        assert forall|i: int| 0 <= i < ws.drop_last().len() implies ws.drop_last()[i] == ws[i] by {}
        assert(ws.last() == ws[ws.len() - 1]);
    }
}

proof fn lemma_signed_weight_grows(ws: Seq<ParticipantWeight>, valid: Seq<Seq<char>>, x: Seq<char>)
    ensures
        weight_signed(ws, valid) <= weight_signed(ws, valid.push(x)),
    decreases ws.len(),
{
    if ws.len() > 0 {
        lemma_signed_weight_grows(ws.drop_last(), valid, x);
        if valid.contains(ws.last().did@) {
            let k = choose|k: int| 0 <= k < valid.len() && valid[k] == ws.last().did@;
            assert(valid.push(x)[k] == ws.last().did@);
        }
    }
}

/// One more valid signer never takes a quorum away, counted or weighted.
pub proof fn law_quorum_kept_with_more_signers(q: QuorumType, valid: Seq<Seq<char>>, x: Seq<char>, required: usize)
    ensures
        quorum_finding(q, valid, required).0 ==> quorum_finding(q, valid.push(x), required).0,
        quorum_finding(q, valid, required).1 == quorum_finding(q, valid.push(x), required).1,
{
    if q is Weighted {
        lemma_signed_weight_grows(q->Weighted_0@, valid, x);
    }
}

/// Decides the weighted or counted quorum.
fn check_quorum(q: &QuorumType, valid: &Vec<String>, required: usize) -> (r: (bool, usize))
    requires
        weights_fit(*q),
    ensures
        r == quorum_finding(*q, texts(valid@), required),
{
    match q {
        QuorumType::Weighted(ws) => {
            let mut total: u64 = 0;
            let mut max: u64 = 0;
            let mut i: usize = 0;
            while i < ws.len()
                invariant
                    i <= ws@.len(),
                    weight_total(ws@) <= u64::MAX,
                    max == weight_total(ws@.subrange(0, i as int)),
                    total == weight_signed(ws@.subrange(0, i as int), texts(valid@)),
                decreases ws.len() - i,
            {
                proof {
                    lemma_weight_total_prefix(ws@, i + 1);
                    lemma_weight_signed_le(ws@.subrange(0, i + 1), texts(valid@));
                    assert(ws@.subrange(0, i + 1).drop_last() == ws@.subrange(0, i as int));
                }
                max = max + ws[i].weight;
                if contains_text(valid, ws[i].did.as_str()) {
                    total = total + ws[i].weight;
                }
                i = i + 1;
            }
            assert(ws@.subrange(0, ws@.len() as int) == ws@);
            let required_weight = max / 2 + 1;
            (total >= required_weight, required_weight as usize)
        },
        _ => (valid.len() >= required, required),
    }
}

/// Verifies a trust bundle against the hashes of the events at hand and the
/// participants' keys.
///
/// The CID check compares the hexadecimal bundle hash with the CID less its
/// first four characters; every referenced event must be at hand (or none be
/// referenced); and when keys are known, every signature whose signer has a key
/// must be a valid 64-byte Ed25519 signature of the bundle hash, and enough of
/// them (or, under a weighted quorum, more than half of the weight) must be
/// valid. Without keys the signature and quorum checks pass. The keys are
/// taken in order as a map by DID: a DID given twice has its last key.
pub fn verify_bundle(
    bundle: &TrustBundle,
    event_hashes: &Vec<String>,
    keys: &Vec<ParticipantVerifyingKey>,
) -> (r: VerificationResults)
    requires
        bundle.bundle_cid matches Some(c) ==> byte_cut(c@, 4) is Some,
        weights_fit(bundle.quorum_type),
    ensures
        r.cid_valid == cid_matches(
            match bundle.bundle_cid { Some(c) => Some(c@), None => None },
            bundle.bundle_hash@,
        ),
        texts(r.verified_events@) == found_events(texts(bundle.referenced_events@), texts(event_hashes@)),
        texts(r.missing_events@) == absent_events(texts(bundle.referenced_events@), texts(event_hashes@)),
        r.events_valid == (r.missing_events@.len() == 0 || bundle.referenced_events@.len() == 0),
        keys@.len() == 0 ==> {
            &&& r.valid_signers@.len() == 0
            &&& r.invalid_signers@.len() == 0
            &&& r.signatures_valid
            &&& r.quorum_valid
            &&& r.required_signatures == bundle.required_signatures
        },
        keys@.len() > 0 ==> {
            let valid = signers_judged(keys@, bundle.bundle_hash@, bundle.signatures@, true);
            let invalid = signers_judged(keys@, bundle.bundle_hash@, bundle.signatures@, false);
            &&& texts(r.valid_signers@) == valid
            &&& texts(r.invalid_signers@) == invalid
            &&& r.signatures_valid == (invalid.len() == 0)
            &&& (r.quorum_valid, r.required_signatures)
                == quorum_finding(bundle.quorum_type, valid, bundle.required_signatures)
            &&& !(bundle.quorum_type is Weighted) ==> (r.quorum_valid <==> valid.len() >= bundle.required_signatures)
                && r.required_signatures == bundle.required_signatures
            &&& bundle.quorum_type matches QuorumType::Weighted(ws) ==> {
                &&& r.quorum_valid <==> 2 * weight_signed(ws@, valid) > weight_total(ws@)
                &&& weight_total(ws@) < usize::MAX ==> 2 * (r.required_signatures as int) > weight_total(ws@)
                    && 2 * (r.required_signatures as int - 1) <= weight_total(ws@)
            }
        },
        r.valid_signatures == r.valid_signers@.len(),
        r.is_valid == (r.cid_valid && r.events_valid && r.signatures_valid && r.quorum_valid),
{
    let cid_valid = match &bundle.bundle_cid {
        Some(cid) => {
            let expected = hex_encode(bundle.bundle_hash.as_slice());
            let cv = crate::text::chars_of(cid.as_str());
            let tail = after_four_bytes(&cv);
            crate::text::starts_with(expected.as_str(), tail.as_str())
        },
        None => true,
    };

    let refs = &bundle.referenced_events;
    let mut verified_events: Vec<String> = Vec::new();
    let mut missing_events: Vec<String> = Vec::new();
    let ghost found = |id: Seq<char>| texts(event_hashes@).contains(id);
    let ghost lost = |id: Seq<char>| !texts(event_hashes@).contains(id);
    let mut i: usize = 0;
    while i < refs.len()
        invariant
            i <= refs@.len(),
            found == (|id: Seq<char>| texts(event_hashes@).contains(id)),
            lost == (|id: Seq<char>| !texts(event_hashes@).contains(id)),
            texts(verified_events@) == texts(refs@.subrange(0, i as int)).filter(found),
            texts(missing_events@) == texts(refs@.subrange(0, i as int)).filter(lost),
        decreases refs.len() - i,
    {
        let ghost before = texts(refs@.subrange(0, i as int));
        let ghost next = texts(refs@.subrange(0, i + 1));
        let ghost x = refs@[i as int]@;
        assert(next == before.push(x));
        proof {
            before.lemma_filter_push(x, found);
            before.lemma_filter_push(x, lost);
        }
        assert(next.filter(found) == if found(x) { before.filter(found).push(x) } else { before.filter(found) });
        assert(next.filter(lost) == if lost(x) { before.filter(lost).push(x) } else { before.filter(lost) });
        if event_is_known(event_hashes, &refs[i]) {
            let ghost old_v = verified_events@;
            verified_events.push(refs[i].clone());
            assert(texts(verified_events@) == texts(old_v).push(x));
        } else {
            let ghost old_m = missing_events@;
            missing_events.push(refs[i].clone());
            assert(texts(missing_events@) == texts(old_m).push(x));
        }
        i = i + 1;
    }
    assert(refs@.subrange(0, refs@.len() as int) == refs@);
    let events_valid = missing_events.len() == 0 || refs.len() == 0;

    let mut valid_signers: Vec<String> = Vec::new();
    let mut invalid_signers: Vec<String> = Vec::new();
    let signatures_valid: bool;
    let quorum_valid: bool;
    let mut required_signatures: usize = bundle.required_signatures;
    if keys.len() > 0 {
        let sigs = &bundle.signatures;
        let mut j: usize = 0;
        while j < sigs.len()
            invariant
                j <= sigs@.len(),
                texts(valid_signers@) == signers_judged(keys@, bundle.bundle_hash@, sigs@.subrange(0, j as int), true),
                texts(invalid_signers@) == signers_judged(keys@, bundle.bundle_hash@, sigs@.subrange(0, j as int), false),
            decreases sigs.len() - j,
        {
            assert(sigs@.subrange(0, j + 1).drop_last() == sigs@.subrange(0, j as int));
            assert(sigs@.subrange(0, j + 1).last() == sigs@[j as int]);
            match judge_signature(keys, &bundle.bundle_hash, &sigs[j]) {
                Some(true) => {
                    valid_signers.push(sigs[j].signer.clone());
                    assert(texts(valid_signers@) == texts(valid_signers@).drop_last().push(sigs@[j as int].signer@));
                },
                Some(false) => {
                    invalid_signers.push(sigs[j].signer.clone());
                    assert(texts(invalid_signers@) == texts(invalid_signers@).drop_last().push(sigs@[j as int].signer@));
                },
                None => {},
            }
            j = j + 1;
        }
        assert(sigs@.subrange(0, sigs@.len() as int) == sigs@);
        let (q, req) = check_quorum(&bundle.quorum_type, &valid_signers, bundle.required_signatures);
        quorum_valid = q;
        required_signatures = req;
        signatures_valid = invalid_signers.len() == 0;
    } else {
        signatures_valid = true;
        quorum_valid = true;
    }
    let valid_signatures = valid_signers.len();
    VerificationResults {
        is_valid: cid_valid && events_valid && signatures_valid && quorum_valid,
        cid_valid,
        signatures_valid,
        quorum_valid,
        events_valid,
        valid_signatures,
        required_signatures,
        verified_events,
        valid_signers,
        invalid_signers,
        missing_events,
    }
}



#[derive(Debug)]
pub enum BundleCommands {
    /// Create a new TrustBundle locally from components.
    Create(CreateBundleArgs),
    /// Anchor a locally created TrustBundle to the DAG.
    Anchor(AnchorBundleArgs),
    /// Show details of an anchored TrustBundle from the DAG.
    Show(ShowBundleArgs),
    /// Verify an anchored TrustBundle from the DAG (proofs, anchors).
    Verify(VerifyBundleArgs),
    /// Export an anchored TrustBundle from the DAG to a local file.
    Export(ExportBundleArgs),
}

#[derive(Debug)]
pub struct CreateBundleArgs {
    /// CID of the state data associated with this bundle.
    pub state_cid: String,

    /// Path to a JSON file containing the QuorumProof for the state.
    pub state_proof_file: String,

    /// Previous anchor references (format: "cid:object_type:timestamp_rfc3339" or "cid"). Can be specified multiple times.
    pub prev_anchors: Vec<String>,

    /// Optional path to a JSON file containing metadata for the bundle.
    pub metadata_file: Option<String>,

    /// Output file path to save the created TrustBundle (JSON format).
    pub output: String,
}

#[derive(Debug)]
pub struct AnchorBundleArgs {
    /// Path to the local TrustBundle file (JSON format) to be anchored.
    pub bundle_file: String,

    /// Path to the JWK file for signing the anchor DAG node. If not provided, uses default key.
    pub key_file: Option<String>,

    /// DID of the author anchoring this bundle. If provided, it must match the DID of the key from key_file.
    pub author_did: Option<String>,

    /// Optional path to the DAG storage directory.
    pub dag_dir: Option<String>,

    /// Optional output file path to save the resulting anchor CID.
    pub output: Option<String>,
}

#[derive(Debug)]
pub struct ShowBundleArgs {
    /// CID of the anchored TrustBundle to show.
    pub cid: String,

    /// Optional path to the DAG storage directory.
    pub dag_dir: Option<String>,

    /// Show the raw anchor DAG node instead of the resolved TrustBundle content.
    pub raw_node: bool,
}

#[derive(Debug)]
pub struct VerifyBundleArgs {
    /// CID of the anchored TrustBundle to verify.
    pub cid: String,

    /// Optional path to the DAG storage directory.
    pub dag_dir: Option<String>,
}

#[derive(Debug)]
pub struct ExportBundleArgs {
    /// CID of the anchored TrustBundle to export.
    pub cid: String,

    /// Output file path to save the exported TrustBundle (JSON format).
    pub output: String,

    /// Optional path to the DAG storage directory.
    pub dag_dir: Option<String>,
}

/// The instant an RFC 3339 timestamp names, as `chrono::DateTime::parse_from_rfc3339`
/// reads it (seconds and nanoseconds since the Unix epoch), or the text of its error.
pub uninterp spec fn rfc3339_reading(text: Seq<char>) -> Result<(i64, u32), Seq<char>>;

/// Reads an RFC 3339 timestamp with `chrono::DateTime::parse_from_rfc3339`;
/// the instant, or the error's text, is named by `rfc3339_reading`.
#[verifier::external_body]
fn read_rfc3339(text: &str) -> (r: Result<(i64, u32), String>)
    ensures
        match r {
            Ok(t) => rfc3339_reading(text@) == Ok::<(i64, u32), Seq<char>>(t),
            Err(m) => rfc3339_reading(text@) == Err::<(i64, u32), Seq<char>>(m@),
        },
{
    match chrono::DateTime::parse_from_rfc3339(text) {
        Ok(d) => Ok((d.timestamp(), d.timestamp_subsec_nanos())),
        Err(e) => Err(e.to_string()),
    }
}

/// A reference to an anchored object: its CID's bytes, its kind when named,
/// and when it was anchored (seconds and nanoseconds since the Unix epoch).
#[derive(Debug)]
pub struct AnchorRef {
    pub cid: Vec<u8>,
    pub object_type: Option<String>,
    pub timestamp: (i64, u32),
}

/// The position of the first `:` at or after `from`.
pub open spec fn colon_from(s: Seq<char>, from: int) -> Option<int>
    decreases s.len() - from,
{
    if from < 0 || from >= s.len() {
        None
    } else if s[from] == ':' {
        Some(from)
    } else {
        colon_from(s, from + 1)
    }
}

/// An anchor string cut at its first two colons: the CID, the kind, the time.
pub open spec fn anchor_fields(s: Seq<char>) -> (Seq<char>, Option<Seq<char>>, Option<Seq<char>>) {
    match colon_from(s, 0) {
        None => (s, None, None),
        Some(i) => match colon_from(s, i + 1) {
            None => (s.subrange(0, i), Some(s.subrange(i + 1, s.len() as int)), None),
            Some(j) => (s.subrange(0, i), Some(s.subrange(i + 1, j)), Some(s.subrange(j + 1, s.len() as int))),
        },
    }
}

/// What an anchor string `cid[:kind[:time]]` reads as; without a time the
/// reference is taken at `now`.
pub open spec fn anchor_outcome(s: Seq<char>, now: (i64, u32)) -> Result<(Seq<u8>, Option<Seq<char>>, (i64, u32)), Seq<char>> {
    let (c, o, t) = anchor_fields(s);
    match crate::dag::cid_text_reading(c) {
        Err(e) => Err("Invalid CID '"@ + c + "' in anchor string: "@ + e),
        Ok(b) => match t {
            None => Ok((b, o, now)),
            Some(ts) => match rfc3339_reading(ts) {
                Err(e) => Err("Invalid timestamp format '"@ + ts + "' in anchor string (expected RFC3339): "@ + e),
                Ok(x) => Ok((b, o, x)),
            },
        },
    }
}

fn colon_at_or_after(cs: &Vec<char>, from: usize) -> (r: Option<usize>)
    requires
        from <= cs@.len(),
    ensures
        match r {
            Some(k) => colon_from(cs@, from as int) == Some(k as int) && from <= k < cs@.len(),
            None => colon_from(cs@, from as int) is None,
        },
{
    let mut k: usize = from;
    while k < cs.len()
        invariant
            from <= k <= cs@.len(),
            colon_from(cs@, from as int) == colon_from(cs@, k as int),
        decreases cs.len() - k,
    {
        if cs[k] == ':' {
            return Some(k);
        }
        k = k + 1;
    }
    None
}

/// Reads an anchor string `cid[:kind[:time]]`: the CID must read as one and
/// the time, when given, as an RFC 3339 timestamp; without a time the
/// reference is taken at `now`. A refusal is an invalid argument.
pub fn parse_anchor_ref_str(anchor_str: &str, now: (i64, u32)) -> (r: Result<AnchorRef, crate::governance::CliError>)
    ensures
        match anchor_outcome(anchor_str@, now) {
            Ok((c, o, t)) => r matches Ok(a) && a.cid@ == c && a.timestamp == t && match o {
                Some(x) => a.object_type matches Some(y) && y@ == x,
                None => a.object_type is None,
            },
            Err(m) => r matches Err(crate::governance::CliError::InvalidArgument(x)) && x@ == m,
        },
{
    let cs = crate::text::chars_of(anchor_str);
    let n = cs.len();
    assert(cs@ == anchor_str@);
    let ghost fields = anchor_fields(anchor_str@);
    let cid_text: String;
    let object_type: Option<String>;
    let time_text: Option<String>;
    match colon_at_or_after(&cs, 0) {
        None => {
            assert(cs@.subrange(0, cs@.len() as int) == cs@);
            cid_text = crate::text::string_from_chars(&cs, 0, cs.len());
            object_type = None;
            time_text = None;
        },
        Some(i) => {
            assert(i < cs@.len());
            assert(colon_from(anchor_str@, 0) == Some(i as int));
            cid_text = crate::text::string_from_chars(&cs, 0, i);
            assert(cid_text@ == anchor_str@.subrange(0, i as int));
            match colon_at_or_after(&cs, i + 1) {
                None => {
                    object_type = Some(crate::text::string_from_chars(&cs, i + 1, cs.len()));
                    time_text = None;
                    assert(colon_from(anchor_str@, i + 1) is None);
                    assert(fields == (anchor_str@.subrange(0, i as int),
                        Some(anchor_str@.subrange(i + 1, anchor_str@.len() as int)), None::<Seq<char>>));
                },
                Some(j) => {
                    assert(j < cs@.len());
                    object_type = Some(crate::text::string_from_chars(&cs, i + 1, j));
                    time_text = Some(crate::text::string_from_chars(&cs, j + 1, cs.len()));
                    assert(colon_from(anchor_str@, i + 1) == Some(j as int));
                    assert(fields == (anchor_str@.subrange(0, i as int), Some(anchor_str@.subrange(i + 1, j as int)),
                        Some(anchor_str@.subrange(j + 1, anchor_str@.len() as int))));
                },
            }
        },
    }
    assert(cid_text@ == fields.0);
    assert(match fields.1 {
        Some(x) => object_type matches Some(y) && y@ == x,
        None => object_type is None,
    });
    assert(match fields.2 {
        Some(x) => time_text matches Some(y) && y@ == x,
        None => time_text is None,
    });
    let cid = match crate::dag::read_cid_text(cid_text.as_str()) {
        Ok(b) => b,
        Err(e) => {
            return Err(crate::governance::CliError::InvalidArgument("Invalid CID '".to_owned().concat(cid_text.as_str())
                .concat("' in anchor string: ").concat(e.as_str())));
        },
    };
    let timestamp = match &time_text {
        None => now,
        Some(ts) => match read_rfc3339(ts.as_str()) {
            Ok(t) => t,
            Err(e) => {
                return Err(crate::governance::CliError::InvalidArgument("Invalid timestamp format '".to_owned()
                    .concat(ts.as_str()).concat("' in anchor string (expected RFC3339): ").concat(e.as_str())));
            },
        },
    };
    Ok(AnchorRef { cid, object_type, timestamp })
}

} // verus!
