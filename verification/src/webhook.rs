//! Handling of the webhook events that GitHub sends to the app.

pub mod check_run;
pub mod comment;
pub mod pr;

use vstd::prelude::*;
use vstd::string::StringSliceAdditionalSpecFns;

verus! {

/// The bytes of `sha256=`, the prefix of GitHub's signature header.
pub open spec fn signature_prefix() -> Seq<u8> {
    seq![115u8, 104u8, 97u8, 50u8, 53u8, 54u8, 61u8]
}

/// A lowercase hexadecimal digit.
pub open spec fn is_lower_hex(b: u8) -> bool {
    (48 <= b <= 57) || (97 <= b <= 102)
}

/// The value of a lowercase hexadecimal digit.
pub open spec fn hex_value(b: u8) -> int {
    if b <= 57 {
        b - 48
    } else {
        b - 87
    }
}

/// The lowercase hexadecimal digit of a value below 16.
pub open spec fn hex_digit(v: int) -> u8 {
    if v < 10 {
        (v + 48) as u8
    } else {
        (v + 87) as u8
    }
}

/// The bytes that pairs of hexadecimal digits stand for, high digit first.
pub open spec fn decode_hex(s: Seq<u8>) -> Seq<u8> {
    Seq::new(s.len() / 2, |i: int| (hex_value(s[2 * i]) * 16 + hex_value(s[2 * i + 1])) as u8)
}

/// The lowercase hexadecimal form of bytes, high digit first.
pub open spec fn lower_hex(b: Seq<u8>) -> Seq<u8> {
    Seq::new(
        2 * b.len(),
        |i: int|
            if i % 2 == 0 {
                hex_digit((b[i / 2] / 16) as int)
            } else {
                hex_digit((b[i / 2] % 16) as int)
            },
    )
}

/// HMAC-SHA256 of `message` under `key`.
pub uninterp spec fn hmac_sha256(key: Seq<u8>, message: Seq<u8>) -> Seq<u8>;

/// Computes HMAC-SHA256 with the `hmac` and `sha2` crates (`Hmac::<Sha256>`, keyed with
/// `new_from_slice`, fed the message, finalized). The result is the named HMAC of the
/// key and message; its length is the SHA-256 output size, 32 bytes. `new_from_slice`
/// accepts keys of every length for `Hmac`.
#[verifier::external_body]
fn compute_hmac_sha256(key: &[u8], message: &[u8]) -> (r: Vec<u8>)
    ensures
        r@ == hmac_sha256(key@, message@),
        r@.len() == 32,
{
    let mac = <hmac::Hmac<sha2::Sha256> as hmac::KeyInit>::new_from_slice(key).expect("HMAC accepts keys of any length");
    hmac::Mac::finalize(hmac::Mac::chain_update(mac, message)).into_bytes().to_vec()
}

/// Compares two byte strings in constant time with `ctutils::CtEq::ct_eq`: equal
/// lengths and equal bytes.
#[verifier::external_body]
fn constant_time_eq(a: &[u8], b: &[u8]) -> (r: bool)
    ensures
        r == (a@ == b@),
{
    ctutils::CtEq::ct_eq(a, b).into()
}

/// The signature header is `sha256=` followed by the lowercase hexadecimal HMAC-SHA256
/// of the body under the webhook secret.
pub open spec fn spec_verify_webhook_payload(body: Seq<u8>, signature: Option<Seq<u8>>, secret: Seq<u8>) -> bool {
    signature matches Some(h) && h.len() == 71 && h.take(7) == signature_prefix() && (forall|i: int|
        7 <= i < 71 ==> is_lower_hex(#[trigger] h[i])) && decode_hex(h.skip(7)) == hmac_sha256(secret, body)
}

fn hex_value_exec(b: u8) -> (r: u8)
    requires
        is_lower_hex(b),
    ensures
        r == hex_value(b),
        r < 16,
{
    if b <= 57 {
        b - 48
    } else {
        b - 87
    }
}

/// Checks the `X-Hub-Signature-256` header of a webhook request: `signature` holds the
/// header's bytes, if the request had the header. The request is genuine when the
/// header is `sha256=` and the lowercase hexadecimal HMAC-SHA256 of the body, keyed
/// with the webhook secret.
#[verifier::loop_isolation(false)]
pub fn verify_webhook_payload(body: &[u8], signature: Option<&[u8]>, webhook_secret: &str) -> (r: bool)
    ensures
        r == spec_verify_webhook_payload(
            body@,
            match signature {
                Some(s) => Some(s@),
                None => None,
            },
            webhook_secret.spec_bytes(),
        ),
        r == match signature {
            Some(s) => s@ == signature_prefix() + lower_hex(hmac_sha256(webhook_secret.spec_bytes(), body@)),
            None => false,
        },
        signature is Some ==> hmac_sha256(webhook_secret.spec_bytes(), body@).len() == 32,
{
    let sig = match signature {
        Some(s) => s,
        None => {
            return false;
        },
    };
    let mac = compute_hmac_sha256(webhook_secret.as_bytes(), body);
    proof {
        lemma_signature_accepted_exactly(body@, sig@, webhook_secret.spec_bytes());
    }
    if sig.len() != 71 {
        return false;
    }
    let prefix: [u8; 7] = [115, 104, 97, 50, 53, 54, 61];
    let mut k: usize = 0;
    while k < 7
        invariant
            sig@.len() == 71,
            prefix@ == signature_prefix(),
            k <= 7,
            forall|j: int| 0 <= j < k ==> sig@[j] == signature_prefix()[j],
        decreases 7 - k,
    {
        if sig[k] != prefix[k] {
            assert(sig@.take(7)[k as int] != signature_prefix()[k as int]);
            assert(sig@.take(7) != signature_prefix());
            return false;
        }
        k = k + 1;
    }
    assert(sig@.take(7) =~= signature_prefix());
    let mut k: usize = 7;
    while k < 71
        invariant
            sig@.len() == 71,
            7 <= k <= 71,
            forall|j: int| 7 <= j < k ==> is_lower_hex(#[trigger] sig@[j]),
        decreases 71 - k,
    {
        let c = sig[k];
        if !((48 <= c && c <= 57) || (97 <= c && c <= 102)) {
            assert(!is_lower_hex(sig@[k as int]));
            return false;
        }
        k = k + 1;
    }
    let mut parsed: Vec<u8> = Vec::new();
    let mut i: usize = 0;
    while i < 32
        invariant
            sig@.len() == 71,
            forall|j: int| 7 <= j < 71 ==> is_lower_hex(#[trigger] sig@[j]),
            i <= 32,
            parsed@.len() == i,
            forall|j: int| 0 <= j < i ==> #[trigger] parsed@[j] == decode_hex(sig@.skip(7))[j],
        decreases 32 - i,
    {
        let hi = hex_value_exec(sig[7 + 2 * i]);
        let lo = hex_value_exec(sig[8 + 2 * i]);
        assert(hi * 16 + lo <= 255) by (nonlinear_arith)
            requires
                hi < 16,
                lo < 16,
        ;
        let byte: u8 = hi * 16 + lo;
        proof {
            assert(sig@.skip(7)[2 * i as int] == sig@[7 + 2 * i]);
            assert(sig@.skip(7)[2 * i + 1] == sig@[8 + 2 * i]);
        }
        parsed.push(byte);
        i = i + 1;
    }
    assert(parsed@ =~= decode_hex(sig@.skip(7)));
    constant_time_eq(mac.as_slice(), parsed.as_slice())
}


proof fn lemma_div_mod_16(a: int, b: int)
    requires
        0 <= a < 16,
        0 <= b < 16,
    ensures
        (a * 16 + b) / 16 == a,
        (a * 16 + b) % 16 == b,
        0 <= a * 16 + b <= 255,
{
    assert((a * 16 + b) / 16 == a && (a * 16 + b) % 16 == b && 0 <= a * 16 + b <= 255) by (nonlinear_arith)
        requires
            0 <= a < 16,
            0 <= b < 16,
    ;
}

proof fn lemma_split_16(x: u8)
    ensures
        0 <= x / 16 < 16,
        0 <= x % 16 < 16,
        (x / 16) * 16 + x % 16 == x,
{
    assert(0 <= x / 16 < 16 && 0 <= x % 16 < 16 && (x / 16) * 16 + x % 16 == x) by (nonlinear_arith);
}

proof fn lemma_hex_digit_value(v: int)
    requires
        0 <= v < 16,
    ensures
        is_lower_hex(hex_digit(v)),
        hex_value(hex_digit(v)) == v,
{
}

proof fn lemma_hex_value_digit(c: u8)
    requires
        is_lower_hex(c),
    ensures
        0 <= hex_value(c) < 16,
        hex_digit(hex_value(c)) == c,
{
}

/// The lowercase hexadecimal form of bytes has two lowercase digits per byte and
/// decodes back to the bytes.
pub proof fn lemma_decode_lower_hex(b: Seq<u8>)
    ensures
        lower_hex(b).len() == 2 * b.len(),
        forall|i: int| 0 <= i < lower_hex(b).len() ==> is_lower_hex(#[trigger] lower_hex(b)[i]),
        decode_hex(lower_hex(b)) == b,
{
    let h = lower_hex(b);
    assert forall|i: int| 0 <= i < h.len() implies is_lower_hex(#[trigger] h[i]) by {
        lemma_split_16(b[i / 2]);
        lemma_hex_digit_value((b[i / 2] / 16) as int);
        lemma_hex_digit_value((b[i / 2] % 16) as int);
    }
    assert forall|i: int| 0 <= i < b.len() implies #[trigger] decode_hex(h)[i] == b[i] by {
        let x = b[i];
        lemma_split_16(x);
        lemma_hex_digit_value((x / 16) as int);
        lemma_hex_digit_value((x % 16) as int);
        assert((2 * i) % 2 == 0);
        assert((2 * i + 1) % 2 == 1);
        assert((2 * i) / 2 == i);
        assert((2 * i + 1) / 2 == i);
    }
    assert(decode_hex(h) =~= b);
}

/// The webhook check accepts exactly one signature header for a body: `sha256=`
/// followed by the lowercase hexadecimal HMAC-SHA256 of the body under the secret
/// (the HMAC is 32 bytes long, as its computation guarantees).
pub proof fn lemma_signature_accepted_exactly(body: Seq<u8>, header: Seq<u8>, secret: Seq<u8>)
    requires
        hmac_sha256(secret, body).len() == 32,
    ensures
        spec_verify_webhook_payload(body, Some(header), secret) <==> header == signature_prefix()
            + lower_hex(hmac_sha256(secret, body)),
{
    let m = hmac_sha256(secret, body);
    let expected = signature_prefix() + lower_hex(m);
    lemma_decode_lower_hex(m);
    if header == expected {
        assert(header.take(7) =~= signature_prefix());
        assert(header.skip(7) =~= lower_hex(m));
        assert forall|i: int| 7 <= i < 71 implies is_lower_hex(#[trigger] header[i]) by {
            assert(header[i] == lower_hex(m)[i - 7]);
        }
    }
    if spec_verify_webhook_payload(body, Some(header), secret) {
        let s = header.skip(7);
        assert(decode_hex(s) == m);
        assert forall|j: int| 0 <= j < 64 implies #[trigger] s[j] == lower_hex(m)[j] by {
            let i = j / 2;
            assert(is_lower_hex(header[7 + 2 * i]));
            assert(is_lower_hex(header[8 + 2 * i]));
            assert(s[2 * i] == header[7 + 2 * i]);
            assert(s[2 * i + 1] == header[8 + 2 * i]);
            let hi = hex_value(s[2 * i]);
            let lo = hex_value(s[2 * i + 1]);
            lemma_hex_value_digit(s[2 * i]);
            lemma_hex_value_digit(s[2 * i + 1]);
            lemma_div_mod_16(hi, lo);
            assert(m[i] == decode_hex(s)[i]);
            assert(m[i] == hi * 16 + lo);
            if j % 2 == 0 {
                assert(j == 2 * i);
            } else {
                assert(j == 2 * i + 1);
            }
        }
        assert(s =~= lower_hex(m));
        assert(header =~= header.take(7) + s);
    }
}


/// The answer to a webhook request.
#[derive(Clone, Copy, PartialEq, Eq, Debug, Structural)]
pub enum WebhookResponse {
    /// 403: the signature did not match
    Forbidden,
    /// 400: the event type is missing or the body is not an event of that type
    BadRequest,
    /// 202: the event is taken for processing
    Accepted,
}

/// How a webhook request is answered: requests with a wrong signature are refused
/// first, then requests without an event type or with a body that is not such an event.
pub fn webhook_response(signature_valid: bool, has_event_type: bool, event_parsed: bool) -> (r:
    WebhookResponse)
    ensures
        r == (if !signature_valid {
            WebhookResponse::Forbidden
        } else if !has_event_type || !event_parsed {
            WebhookResponse::BadRequest
        } else {
            WebhookResponse::Accepted
        }),
{
    if !signature_valid {
        WebhookResponse::Forbidden
    } else if !has_event_type || !event_parsed {
        WebhookResponse::BadRequest
    } else {
        WebhookResponse::Accepted
    }
}

} // verus!
