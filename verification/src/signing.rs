//! Manifest authenticity: ed25519 verification of signed manifests. A
//! signature attests that component `<id>` is exactly the artifact with the
//! given hash, vouched for by a registered signer; it covers the canonical
//! message `"<id>\n<wasm-sha256>"`.

use crate::error::AiueError;
use crate::manifest::{is_schema_error, signed_message_spec, Manifest};
use crate::policy::{Policy, Violation, ViolationKind};
use ed25519_dalek::{Signature, VerifyingKey};
use vstd::prelude::*;
use vstd::string::*;
use crate::text::{hex_char, hex_lower, lemma_hex_lower_index, lemma_hex_lower_len};
use vstd::utf8::{encode_utf8, is_ascii_chars, is_ascii_chars_encode_utf8};

verus! {

/// The authenticity status of a manifest under a policy.
#[derive(Debug, Clone, PartialEq, Eq)]
pub enum SigStatus {
    /// No signature: whether that is allowed is up to policy.
    Unsigned,
    /// The signature verified against a registered signer's key.
    Verified(String),
}

/// Whether `ed25519_dalek::VerifyingKey::from_bytes` accepts these 32 bytes
/// as a compressed curve point.
pub uninterp spec fn ed25519_public_key_valid(key: Seq<u8>) -> bool;

/// Whether `ed25519_dalek::VerifyingKey::verify_strict` accepts `signature`
/// over `message` under the key these 32 bytes decode to.
pub uninterp spec fn ed25519_verify_strict_accepts(key: Seq<u8>, message: Seq<u8>, signature: Seq<u8>) -> bool;

/// Calls `ed25519_dalek::VerifyingKey::from_bytes`. Claimed: the result is
/// `ed25519_public_key_valid` of the 32 bytes.
#[verifier::external_body]
fn ed25519_key_decodes(key: &[u8]) -> (ok: bool)
    requires
        key@.len() == 32,
    ensures
        ok == ed25519_public_key_valid(key@),
{
    let bytes: &[u8; 32] = key.try_into().unwrap();
    VerifyingKey::from_bytes(bytes).is_ok()
}

/// Calls `ed25519_dalek::VerifyingKey::verify_strict` with the key decoded
/// from `key` and the signature made from the 64 bytes of `signature`.
/// Claimed: the result is `ed25519_verify_strict_accepts` of the three byte
/// sequences.
#[verifier::external_body]
fn ed25519_verify_strict(key: &[u8], message: &[u8], signature: &[u8]) -> (ok: bool)
    requires
        key@.len() == 32,
        signature@.len() == 64,
        ed25519_public_key_valid(key@),
    ensures
        ok == ed25519_verify_strict_accepts(key@, message@, signature@),
{
    let k: &[u8; 32] = key.try_into().unwrap();
    let s: &[u8; 64] = signature.try_into().unwrap();
    match VerifyingKey::from_bytes(k) {
        Ok(vk) => vk.verify_strict(message, &Signature::from_bytes(s)).is_ok(),
        Err(_) => false,
    }
}

/// The value of an ASCII hex digit, either case.
pub open spec fn hex_value(b: u8) -> Option<u8> {
    if 48 <= b <= 57 {
        Some((b - 48) as u8)
    } else if 97 <= b <= 102 {
        Some((b - 87) as u8)
    } else if 65 <= b <= 70 {
        Some((b - 55) as u8)
    } else {
        None
    }
}

/// The byte two hex digits stand for, high digit first; `None` unless both
/// are hex digits.
pub open spec fn pair_value(b0: u8, b1: u8) -> Option<u8> {
    match (hex_value(b0), hex_value(b1)) {
        (Some(h), Some(l)) => Some((h * 16 + l) as u8),
        _ => None,
    }
}

/// Every pair before the `k`-th is valid hex.
pub open spec fn pairs_valid_before(b: Seq<u8>, k: int) -> bool {
    forall|j: int| 0 <= j < k ==> #[trigger] pair_value(b[2 * j], b[2 * j + 1]) is Some
}

/// The bytes that even-length hex text decodes to, or `None` when it has odd
/// length or a pair that is not valid hex.
pub open spec fn hex_decode(b: Seq<u8>) -> Option<Seq<u8>> {
    if b.len() % 2 == 0 && pairs_valid_before(b, (b.len() / 2) as int) {
        Some(Seq::new(b.len() / 2, |k: int| pair_value(b[2 * k], b[2 * k + 1]).unwrap()))
    } else {
        None
    }
}

/// A digit character reads back as its value.
proof fn lemma_hex_char_value(d: int)
    requires
        0 <= d < 16,
    ensures
        hex_value(hex_char(d) as u8) == Some(d as u8),
        '\0' <= hex_char(d) <= '\u{7f}',
{
}

/// Hex text that `to_hex_lower` renders decodes back to the same bytes.
pub proof fn law_hex_round_trip(bytes: Seq<u8>)
    ensures
        hex_decode(encode_utf8(hex_lower(bytes))) == Some(bytes),
{
    let cs = hex_lower(bytes);
    lemma_hex_lower_len(bytes);
    assert forall|i: int| 0 <= i < cs.len() implies '\0' <= #[trigger] cs[i] <= '\u{7f}' by {
        let k = i / 2;
        lemma_hex_lower_index(bytes, k);
        lemma_hex_char_value(bytes[k] as int / 16);
        lemma_hex_char_value(bytes[k] as int % 16);
    }
    assert(is_ascii_chars(cs));
    is_ascii_chars_encode_utf8(cs);
    let eb = encode_utf8(cs);
    assert forall|k: int| 0 <= k < bytes.len() implies #[trigger] pair_value(eb[2 * k], eb[2 * k + 1]) == Some(bytes[k]) by {
        lemma_hex_lower_index(bytes, k);
        lemma_hex_char_value(bytes[k] as int / 16);
        lemma_hex_char_value(bytes[k] as int % 16);
        assert(eb[2 * k] == cs[2 * k] as u8);
        assert(eb[2 * k + 1] == cs[2 * k + 1] as u8);
    }
    assert(pairs_valid_before(eb, (eb.len() / 2) as int));
    assert(hex_decode(eb).unwrap() =~= bytes);
}

/// The character of a digit below sixteen, in upper case.
pub open spec fn hex_char_upper(d: int) -> char {
    if d == 10 { 'A' } else if d == 11 { 'B' } else if d == 12 { 'C' } else if d == 13 { 'D' }
    else if d == 14 { 'E' } else if d == 15 { 'F' } else { hex_char(d) }
}

/// Two upper-case hexadecimal characters per byte, high nibble first.
pub open spec fn hex_upper(bytes: Seq<u8>) -> Seq<char>
    decreases bytes.len(),
{
    if bytes.len() == 0 {
        seq![]
    } else {
        hex_upper(bytes.drop_last()) + seq![
            hex_char_upper(bytes.last() as int / 16),
            hex_char_upper(bytes.last() as int % 16),
        ]
    }
}

proof fn lemma_hex_upper_index(bytes: Seq<u8>, k: int)
    requires
        0 <= k < bytes.len(),
    ensures
        hex_upper(bytes).len() == 2 * bytes.len(),
        hex_upper(bytes)[2 * k] == hex_char_upper(bytes[k] as int / 16),
        hex_upper(bytes)[2 * k + 1] == hex_char_upper(bytes[k] as int % 16),
    decreases bytes.len(),
{
    lemma_hex_upper_len(bytes);
    lemma_hex_upper_len(bytes.drop_last());
    if k < bytes.len() - 1 {
        lemma_hex_upper_index(bytes.drop_last(), k);
    }
}

proof fn lemma_hex_upper_len(bytes: Seq<u8>)
    ensures
        hex_upper(bytes).len() == 2 * bytes.len(),
    decreases bytes.len(),
{
    if bytes.len() > 0 {
        lemma_hex_upper_len(bytes.drop_last());
    }
}

/// The hex digits are `0`-`9`, `a`-`f` and `A`-`F`, in either case worth
/// 0 to 15; no other byte is a hex digit.
pub proof fn law_hex_digits(b: u8)
    ensures
        forall|d: int| 0 <= d < 16 ==> hex_value(#[trigger] hex_char(d) as u8) == Some(d as u8),
        forall|d: int| 0 <= d < 16 ==> hex_value(#[trigger] hex_char_upper(d) as u8) == Some(d as u8),
        hex_value(b) matches Some(d) ==> d < 16 && (b == hex_char(d as int) as u8 || b == hex_char_upper(d as int) as u8),
{
    assert forall|d: int| 0 <= d < 16 implies hex_value(#[trigger] hex_char(d) as u8) == Some(d as u8) by {
        lemma_hex_char_value(d);
    }
}

/// Hex decoding reads either case: the upper-case rendering of any bytes
/// decodes back to the same bytes.
pub proof fn law_hex_round_trip_upper(bytes: Seq<u8>)
    ensures
        hex_decode(encode_utf8(hex_upper(bytes))) == Some(bytes),
{
    let cs = hex_upper(bytes);
    lemma_hex_upper_len(bytes);
    law_hex_digits(0);
    assert forall|i: int| 0 <= i < cs.len() implies '\0' <= #[trigger] cs[i] <= '\u{7f}' by {
        let k = i / 2;
        lemma_hex_upper_index(bytes, k);
        lemma_hex_char_value(bytes[k] as int / 16);
        lemma_hex_char_value(bytes[k] as int % 16);
    }
    assert(is_ascii_chars(cs));
    is_ascii_chars_encode_utf8(cs);
    let eb = encode_utf8(cs);
    assert forall|k: int| 0 <= k < bytes.len() implies #[trigger] pair_value(eb[2 * k], eb[2 * k + 1]) == Some(bytes[k]) by {
        lemma_hex_upper_index(bytes, k);
        assert(eb[2 * k] == cs[2 * k] as u8);
        assert(eb[2 * k + 1] == cs[2 * k + 1] as u8);
        assert(hex_value(hex_char_upper(bytes[k] as int / 16) as u8) == Some((bytes[k] as int / 16) as u8));
        assert(hex_value(hex_char_upper(bytes[k] as int % 16) as u8) == Some((bytes[k] as int % 16) as u8));
    }
    assert(pairs_valid_before(eb, (eb.len() / 2) as int));
    assert(hex_decode(eb).unwrap() =~= bytes);
}

/// The message of a hex decoding error about `what`.
pub open spec fn hex_error(what: Seq<char>, b: Seq<u8>) -> Seq<char> {
    if b.len() % 2 != 0 {
        what + ": odd-length hex"@
    } else {
        what + ": invalid hex"@
    }
}

fn hex_value_exec(b: u8) -> (r: Option<u8>)
    ensures
        r == hex_value(b),
{
    if 48 <= b && b <= 57 {
        Some(b - 48)
    } else if 97 <= b && b <= 102 {
        Some(b - 87)
    } else if 65 <= b && b <= 70 {
        Some(b - 55)
    } else {
        None
    }
}

/// Decode even-length hex text into bytes. Odd length, or a pair of bytes
/// that are not both hex digits (a sign, a non-ASCII character), is a schema
/// error about `what`; a malformed key or signature is never treated as empty.
pub fn from_hex(s: &str, what: &str) -> (r: Result<Vec<u8>, AiueError>)
    ensures
        match r {
            Ok(v) => hex_decode(s.spec_bytes()) == Some(v@),
            Err(e) => hex_decode(s.spec_bytes()) is None && is_schema_error(e, hex_error(what@, s.spec_bytes())),
        },
{
    let b = s.as_bytes();
    let n = b.len();
    if n % 2 != 0 {
        return Err(AiueError::Schema(String::from_str(what).concat(": odd-length hex")));
    }
    let half = n / 2;
    let mut out: Vec<u8> = Vec::new();
    let mut k: usize = 0;
    while k < half
        invariant
            n == b@.len(),
            n % 2 == 0,
            half == n / 2,
            k <= half,
            b@ == s.spec_bytes(),
            pairs_valid_before(b@, k as int),
            out@ =~= Seq::new(k as nat, |j: int| pair_value(b@[2 * j], b@[2 * j + 1]).unwrap()),
        decreases half - k,
    {
        let b0 = b[2 * k];
        let b1 = b[2 * k + 1];
        let v = match (hex_value_exec(b0), hex_value_exec(b1)) {
            (Some(h), Some(l)) => h * 16 + l,
            _ => {
                assert(!pairs_valid_before(b@, half as int)) by {
                    assert(pair_value(b@[2 * k as int], b@[2 * k + 1]) is None);
                }
                return Err(AiueError::Schema(String::from_str(what).concat(": invalid hex")));
            },
        };
        assert(pair_value(b0, b1) == Some(v));
        out.push(v);
        assert(pairs_valid_before(b@, k + 1)) by {
            assert forall|j: int| 0 <= j < k + 1 implies #[trigger] pair_value(b@[2 * j], b@[2 * j + 1]) is Some by {
                if j < k {
                    assert(pairs_valid_before(b@, k as int));
                }
            }
        }
        k = k + 1;
    }
    Ok(out)
}

/// What a signed manifest binds, ready for the ed25519 check: the component,
/// the signer, the decoded key and signature, and the canonical message.
pub struct SignedMaterial {
    pub component: String,
    pub signer: String,
    pub key: Vec<u8>,
    pub signature: Vec<u8>,
    pub message: Vec<u8>,
}

/// `r` is a denial of `component` for a bad signature, with message `msg`.
pub open spec fn is_denial<T>(r: Result<T, AiueError>, component: Seq<char>, msg: Seq<char>) -> bool {
    r matches Err(AiueError::Denied(vs)) && vs@.len() == 1 && vs@[0].component@ == component
        && vs@[0].kind == ViolationKind::BadSignature && vs@[0].message@ == msg
}

/// `r` names `signer` as verified.
pub open spec fn is_verified(r: Result<SigStatus, AiueError>, signer: Seq<char>) -> bool {
    r matches Ok(SigStatus::Verified(s)) && s@ == signer
}

/// The message of the denial when a signature does not verify.
pub open spec fn not_verifying(signer: Seq<char>) -> Seq<char> {
    "signature does not verify for signer `"@ + signer + "`"@
}

/// The outcome of the checks that come before the cryptography, against the
/// registry `reg`: `Ok(None)` for an unsigned manifest, the decoded material
/// when every check passes, else the denial that `verify` returns.
pub open spec fn precheck_outcome(m: Manifest, reg: Map<Seq<char>, Seq<char>>, r: Result<Option<SignedMaterial>, AiueError>) -> bool {
    match m.signature {
        None => r matches Ok(None),
        Some(sig) => match m.signer {
            None => is_denial(r, m.id@, "signature present but no :aiueos/signer"@),
            Some(sn) => match signed_message_spec(m) {
                None => is_denial(r, m.id@, "signed manifest must declare :aiueos/wasm-sha256"@),
                Some(msg) => if !reg.contains_key(sn@) {
                    is_denial(r, m.id@, "signer `"@ + sn@ + "` is not a registered signer"@)
                } else {
                    let kb = encode_utf8(reg[sn@]);
                    let sb = encode_utf8(sig@);
                    if hex_decode(kb) is None {
                        is_denial(r, m.id@, hex_error("signer key"@, kb))
                    } else if hex_decode(sb) is None {
                        is_denial(r, m.id@, hex_error("signature"@, sb))
                    } else if hex_decode(kb).unwrap().len() != 32 {
                        is_denial(r, m.id@, "signer key must be 32 bytes"@)
                    } else if hex_decode(sb).unwrap().len() != 64 {
                        is_denial(r, m.id@, "signature must be 64 bytes"@)
                    } else {
                        r matches Ok(Some(mat)) && mat.component@ == m.id@ && mat.signer@ == sn@
                            && mat.key@ == hex_decode(kb).unwrap() && mat.signature@
                            == hex_decode(sb).unwrap() && mat.message@ == encode_utf8(msg)
                    }
                },
            },
        },
    }
}

fn deny(component: &String, message: String) -> (e: AiueError)
    ensures
        is_denial::<SigStatus>(Err(e), component@, message@),
{
    let mut vs: Vec<Violation> = Vec::new();
    vs.push(Violation { component: component.clone(), kind: ViolationKind::BadSignature, message });
    AiueError::Denied(vs)
}

/// The checks before the cryptography: signer present, artifact hash present,
/// signer registered, key and signature well-formed hex of the right length.
/// Each failure is a bad-signature denial of the component.
pub fn signature_material(m: &Manifest, policy: &Policy) -> (r: Result<Option<SignedMaterial>, AiueError>)
    ensures
        precheck_outcome(*m, policy@, r),
{
    let sig_hex = match &m.signature {
        None => return Ok(None),
        Some(s) => s,
    };
    let signer = match &m.signer {
        Some(s) => s,
        None => return Err(deny(&m.id, String::from_str("signature present but no :aiueos/signer"))),
    };
    let msg = match m.signed_message() {
        Some(b) => b,
        None => return Err(deny(&m.id, String::from_str("signed manifest must declare :aiueos/wasm-sha256"))),
    };
    let key_hex = match policy.signer_key(signer.as_str()) {
        Some(k) => k,
        None => return Err(
            deny(&m.id, String::from_str("signer `").concat(signer.as_str()).concat("` is not a registered signer")),
        ),
    };
    let key = match from_hex(key_hex.as_str(), "signer key") {
        Ok(k) => k,
        Err(AiueError::Schema(why)) => return Err(deny(&m.id, why)),
        Err(e) => return Err(e),
    };
    let sig = match from_hex(sig_hex.as_str(), "signature") {
        Ok(s) => s,
        Err(AiueError::Schema(why)) => return Err(deny(&m.id, why)),
        Err(e) => return Err(e),
    };
    if key.len() != 32 {
        return Err(deny(&m.id, String::from_str("signer key must be 32 bytes")));
    }
    if sig.len() != 64 {
        return Err(deny(&m.id, String::from_str("signature must be 64 bytes")));
    }
    Ok(Some(SignedMaterial {
        component: m.id.clone(),
        signer: signer.clone(),
        key,
        signature: sig,
        message: msg.as_str().as_bytes_vec(),
    }))
}

/// The verdict once the ed25519 library has answered: a signature it
/// accepts names the signer; a key that does not decode, or a signature it
/// rejects, is a denial, never a downgrade to unsigned.
pub fn signature_verdict(mat: &SignedMaterial, key_valid: bool, accepted: bool) -> (r: Result<SigStatus, AiueError>)
    ensures
        !key_valid ==> is_denial(r, mat.component@, "bad public key"@),
        key_valid && accepted ==> is_verified(r, mat.signer@),
        key_valid && !accepted ==> is_denial(r, mat.component@, not_verifying(mat.signer@)),
{
    if !key_valid {
        Err(deny(&mat.component, String::from_str("bad public key")))
    } else if accepted {
        Ok(SigStatus::Verified(mat.signer.clone()))
    } else {
        Err(deny(&mat.component, String::from_str("signature does not verify for signer `").concat(mat.signer.as_str()).concat("`")))
    }
}

/// Verify a manifest's signature against the policy's signer registry.
pub fn verify(m: &Manifest, policy: &Policy) -> (r: Result<SigStatus, AiueError>)
    ensures
        verify_outcome(*m, policy@, r),
{
    match signature_material(m, policy) {
        Err(e) => Err(e),
        Ok(None) => Ok(SigStatus::Unsigned),
        Ok(Some(mat)) => {
            let key_valid = ed25519_key_decodes(mat.key.as_slice());
            let accepted = if key_valid {
                ed25519_verify_strict(mat.key.as_slice(), mat.message.as_slice(), mat.signature.as_slice())
            } else {
                false
            };
            signature_verdict(&mat, key_valid, accepted)
        },
    }
}

/// What `verify` returns against the registry `reg`: unsigned exactly when
/// there is no signature; otherwise the signer when every check passes and
/// the strict ed25519 check accepts the signature over the canonical message
/// under the registered key; otherwise a bad-signature denial saying which
/// check failed first.
pub open spec fn verify_outcome(m: Manifest, reg: Map<Seq<char>, Seq<char>>, r: Result<SigStatus, AiueError>) -> bool {
    match m.signature {
        None => r matches Ok(SigStatus::Unsigned),
        Some(sig) => match m.signer {
            None => is_denial(r, m.id@, "signature present but no :aiueos/signer"@),
            Some(sn) => match signed_message_spec(m) {
                None => is_denial(r, m.id@, "signed manifest must declare :aiueos/wasm-sha256"@),
                Some(msg) => if !reg.contains_key(sn@) {
                    is_denial(r, m.id@, "signer `"@ + sn@ + "` is not a registered signer"@)
                } else {
                    let kb = encode_utf8(reg[sn@]);
                    let sb = encode_utf8(sig@);
                    let key = hex_decode(kb).unwrap();
                    let sgn = hex_decode(sb).unwrap();
                    if hex_decode(kb) is None {
                        is_denial(r, m.id@, hex_error("signer key"@, kb))
                    } else if hex_decode(sb) is None {
                        is_denial(r, m.id@, hex_error("signature"@, sb))
                    } else if key.len() != 32 {
                        is_denial(r, m.id@, "signer key must be 32 bytes"@)
                    } else if sgn.len() != 64 {
                        is_denial(r, m.id@, "signature must be 64 bytes"@)
                    } else if !ed25519_public_key_valid(key) {
                        is_denial(r, m.id@, "bad public key"@)
                    } else if ed25519_verify_strict_accepts(key, encode_utf8(msg), sgn) {
                        is_verified(r, sn@)
                    } else {
                        is_denial(r, m.id@, not_verifying(sn@))
                    }
                },
            },
        },
    }
}

/// A bad signature is never downgraded: `verify` reports a manifest unsigned
/// exactly when it carries no signature, and a signed manifest is either
/// verified or denied for a bad signature.
pub proof fn law_unsigned_iff_no_signature(m: Manifest, reg: Map<Seq<char>, Seq<char>>, r: Result<SigStatus, AiueError>)
    requires
        verify_outcome(m, reg, r),
    ensures
        (r matches Ok(SigStatus::Unsigned)) <==> m.signature is None,
        m.signature is Some ==> (r matches Ok(SigStatus::Verified(_))) || (r matches Err(
            AiueError::Denied(vs),
        ) && vs@.len() == 1 && vs@[0].kind == ViolationKind::BadSignature),
{
}

/// A verified manifest names its own signer, which is registered; it states
/// an artifact hash; and the strict ed25519 check accepted its signature over
/// the canonical message `"<id>\n<wasm-sha256>"` under the registered key.
pub proof fn law_verified_is_authentic(m: Manifest, reg: Map<Seq<char>, Seq<char>>, r: Result<SigStatus, AiueError>)
    requires
        verify_outcome(m, reg, r),
        r matches Ok(SigStatus::Verified(_)),
    ensures
        m.signer is Some,
        r matches Ok(SigStatus::Verified(s)) && s@ == m.signer->Some_0@,
        m.wasm_sha256 is Some,
        reg.contains_key(m.signer->Some_0@),
        ed25519_verify_strict_accepts(
            hex_decode(encode_utf8(reg[m.signer->Some_0@])).unwrap(),
            encode_utf8(m.id@ + "\n"@ + m.wasm_sha256->Some_0@),
            hex_decode(encode_utf8(m.signature->Some_0@)).unwrap(),
        ),
{
}

} // verus!
