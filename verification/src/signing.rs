//! How an upload is signed.
//!
//! The signature is the HMAC-SHA256 of four lines: the method, the path, the
//! time in seconds, and the SHA-256 of the body in small hexadecimal digits.

use crate::config::UploadConfig;
use crate::decimal::decimal_text;
use crate::hex_text::encode;
use hmac::Mac;
use sha2::Digest;
use vstd::prelude::*;
use vstd::string::*;
use vstd::utf8::*;

verus! {

/// The SHA-256 digest of a message.
pub uninterp spec fn sha256_of(message: Seq<u8>) -> Seq<u8>;

/// The HMAC-SHA256 code of a message under a key.
pub uninterp spec fn hmac_sha256_of(key: Seq<u8>, message: Seq<u8>) -> Seq<u8>;

/// Whether the length of a message of `bytes` bytes, counted in bits, fits the 64
/// bits that SHA-256 has for it.
pub open spec fn is_hashable(bytes: nat) -> bool {
    8 * bytes <= u64::MAX
}

/// `sha2::Sha256::digest`: the digest of `message`, which is 32 bytes and depends
/// on `message` alone. Counting the bits of a longer message overflows.
#[verifier::external_body]
fn sha256(message: &[u8]) -> (digest: Vec<u8>)
    requires
        is_hashable(message@.len()),
    ensures
        digest@ == sha256_of(message@),
        digest@.len() == 32,
{
    sha2::Sha256::digest(message).to_vec()
}

/// `hmac::Hmac` over `sha2::Sha256`, fed with `message` in one piece: the code of
/// `message` under `key`, which is 32 bytes and depends on the two alone. No key
/// is refused for its length. The message is hashed behind a block of 64 bytes,
/// and a key longer than that is hashed too; counting the bits of more than
/// SHA-256 can take overflows.
#[verifier::external_body]
fn hmac_sha256(key: &[u8], message: &[u8]) -> (code: Vec<u8>)
    requires
        is_hashable(key@.len()),
        is_hashable(64 + message@.len()),
    ensures
        code@ == hmac_sha256_of(key@, message@),
        code@.len() == 32,
{
    let mut mac = hmac::Hmac::<sha2::Sha256>::new_from_slice(key).expect("HMAC accepts any key");
    mac.update(message);
    mac.finalize().into_bytes().to_vec()
}

/// The method and path that are signed.
pub open spec fn signed_head() -> Seq<char> {
    "POST\n/v1/telemetry/raw\n"@
}

/// The text that is signed for a body with the given digest.
pub open spec fn canonical(timestamp: int, digest: Seq<u8>) -> Seq<char> {
    signed_head() + crate::decimal::decimal(timestamp) + seq!['\n'] + crate::hex_text::lower_hex(
        digest,
    )
}

/// The signature of `body` at `timestamp`, as it is sent.
pub open spec fn signature_of(secret: Seq<char>, timestamp: int, body: Seq<u8>) -> Seq<char> {
    crate::hex_text::lower_hex(
        hmac_sha256_of(
            encode_utf8(secret),
            encode_utf8(canonical(timestamp, sha256_of(body))),
        ),
    )
}

/// The text that is signed for a body with the given digest.
pub fn canonical_text(timestamp: i64, digest: &[u8]) -> (text: String)
    requires
        2 * digest@.len() <= isize::MAX,
    ensures
        text@ == canonical(timestamp as int, digest@),
{
    let mut text = "POST\n/v1/telemetry/raw\n".to_owned();
    text.append(decimal_text(timestamp).as_str());
    text.append("\n");
    proof {
        reveal_strlit("\n");
        assert("\n"@ =~= seq!['\n']);
    }
    text.append(encode(digest).as_str());
    text
}

/// The text that is signed is ASCII, so it takes a byte for each character, and
/// few of them.
proof fn lemma_canonical_is_short(timestamp: int, digest: Seq<u8>)
    requires
        i64::MIN <= timestamp <= i64::MAX,
    ensures
        encode_utf8(canonical(timestamp, digest)).len() <= 44 + 2 * digest.len(),
{
    let text = canonical(timestamp, digest);
    reveal_strlit("POST\n/v1/telemetry/raw\n");
    crate::decimal::lemma_decimal_is_short(timestamp);
    assert(is_ascii_chars(signed_head()));
    assert(is_ascii_chars(crate::hex_text::lower_hex(digest)));
    assert(is_ascii_chars(text));
    is_ascii_chars_encode_utf8(text);
}

/// The signature of `body` at `timestamp`, as it is sent.
pub fn sign(secret: &String, timestamp: i64, body: &[u8]) -> (signature: String)
    requires
        is_hashable(encode_utf8(secret@).len()),
        is_hashable(body@.len()),
    ensures
        signature@ == signature_of(secret@, timestamp as int, body@),
{
    let digest = sha256(body);
    let text = canonical_text(timestamp, digest.as_slice());
    proof {
        lemma_canonical_is_short(timestamp as int, digest@);
    }
    let code = hmac_sha256(secret.as_str().as_bytes(), text.as_str().as_bytes());
    encode(code.as_slice())
}

/// A header of the request.
#[derive(Debug, Clone)]
pub struct Header {
    pub name: String,
    pub value: String,
}

fn header(name: &str, value: String) -> (header: Header)
    ensures
        header.name@ == name@,
        header.value == value,
{
    Header { name: name.to_owned(), value }
}

/// The headers of an upload of `body`.
pub fn upload_headers(cfg: &UploadConfig, timestamp: i64, body: &[u8]) -> (headers: Vec<Header>)
    requires
        is_hashable(encode_utf8(cfg.secret@).len()),
        is_hashable(body@.len()),
    ensures
        headers@.len() == 4,
        headers@[0].name@ == "X-Key-Id"@,
        headers@[0].value@ == cfg.key_id@,
        headers@[1].name@ == "X-Timestamp"@,
        headers@[1].value@ == crate::decimal::decimal(timestamp as int),
        headers@[2].name@ == "X-Signature"@,
        headers@[2].value@ == signature_of(cfg.secret@, timestamp as int, body@),
        headers@[3].name@ == "Content-Type"@,
        headers@[3].value@ == "application/json"@,
{
    let signature = sign(&cfg.secret, timestamp, body);
    let mut headers: Vec<Header> = Vec::new();
    headers.push(header("X-Key-Id", cfg.key_id.clone()));
    headers.push(header("X-Timestamp", decimal_text(timestamp)));
    headers.push(header("X-Signature", signature));
    headers.push(header("Content-Type", "application/json".to_owned()));
    headers
}

/// Milliseconds in whole seconds, towards zero.
pub open spec fn whole_seconds(millis: int) -> int {
    if millis >= 0 {
        millis / 1000
    } else {
        -((-millis) / 1000)
    }
}

/// The time in seconds that a request bears which is made at `millis`.
pub fn upload_timestamp(millis: i64) -> (seconds: i64)
    ensures
        seconds == whole_seconds(millis as int),
        millis >= 0 ==> 1000 * seconds <= millis < 1000 * seconds + 1000,
        millis <= 0 ==> 1000 * seconds - 1000 < millis <= 1000 * seconds,
{
    millis / 1000
}

proof fn lemma_lower_digit_injective(a: int, b: int)
    requires
        0 <= a < 16,
        0 <= b < 16,
        crate::hex_text::lower_digit(a) == crate::hex_text::lower_digit(b),
    ensures
        a == b,
{
}

/// The text that is signed is unambiguous: no two pairs of a time and a digest
/// share one.
pub proof fn law_canonical_is_unambiguous(t1: int, d1: Seq<u8>, t2: int, d2: Seq<u8>)
    requires
        canonical(t1, d1) == canonical(t2, d2),
    ensures
        t1 == t2,
        d1 == d2,
{
    let head = signed_head().len() as int;
    let a = canonical(t1, d1);
    let b = canonical(t2, d2);
    let n1 = crate::decimal::decimal(t1);
    let n2 = crate::decimal::decimal(t2);
    crate::decimal::lemma_decimal_is_one_line(t1);
    crate::decimal::lemma_decimal_is_one_line(t2);
    assert forall|i: int| 0 <= i < n1.len() implies #[trigger] a[head + i] == n1[i] by {}
    assert forall|i: int| 0 <= i < n2.len() implies #[trigger] b[head + i] == n2[i] by {}
    assert(a[head + n1.len()] == '\n');
    assert(b[head + n2.len()] == '\n');
    if n1.len() < n2.len() {
        assert(b[head + n1.len()] == n2[n1.len() as int]);
    }
    if n2.len() < n1.len() {
        assert(a[head + n2.len()] == n1[n2.len() as int]);
    }
    assert(n1 =~= n2) by {
        assert forall|i: int| 0 <= i < n1.len() implies n1[i] == n2[i] by {
            assert(a[head + i] == n1[i]);
            assert(b[head + i] == n2[i]);
        }
    }
    crate::decimal::law_decimal_is_unambiguous(t1, t2);
    let at = head + n1.len() + 1;
    let h1 = crate::hex_text::lower_hex(d1);
    let h2 = crate::hex_text::lower_hex(d2);
    assert(a.len() == at + h1.len());
    assert(b.len() == at + h2.len());
    assert forall|i: int| 0 <= i < d1.len() implies d1[i] == d2[i] by {
        assert(a[at + 2 * i] == h1[2 * i]);
        assert(b[at + 2 * i] == h2[2 * i]);
        assert(a[at + (2 * i + 1)] == h1[2 * i + 1]);
        assert(b[at + (2 * i + 1)] == h2[2 * i + 1]);
        assert((2 * i) / 2 == i && (2 * i) % 2 == 0);
        assert((2 * i + 1) / 2 == i && (2 * i + 1) % 2 == 1);
        lemma_lower_digit_injective(d1[i] as int / 16, d2[i] as int / 16);
        lemma_lower_digit_injective(d1[i] as int % 16, d2[i] as int % 16);
    }
    assert(d1 =~= d2);
}

/// The text that is signed is four lines: the method, the path, the time, and the
/// digest, which its digits read back as.
pub proof fn law_canonical_has_four_lines(timestamp: int, digest: Seq<u8>)
    ensures
        ({
            let text = canonical(timestamp, digest);
            let time = crate::decimal::decimal(timestamp);
            let at = 23 + time.len() + 1;
            &&& text.len() == at + 2 * digest.len()
            &&& text.take(23) == "POST\n/v1/telemetry/raw\n"@
            &&& text.subrange(23, 23 + time.len() as int) == time
            &&& text[at - 1] == '\n'
            &&& forall|i: int|
                0 <= i < digest.len() ==> {
                    let high = text[at + 2 * i];
                    let low = text[at + 2 * i + 1];
                    &&& '0' <= high <= '9' || 'a' <= high <= 'f'
                    &&& '0' <= low <= '9' || 'a' <= low <= 'f'
                    &&& #[trigger] digest[i] == 16 * (if high <= '9' {
                        high as int - 0x30
                    } else {
                        high as int - 0x61 + 10
                    }) + (if low <= '9' {
                        low as int - 0x30
                    } else {
                        low as int - 0x61 + 10
                    })
                }
        }),
{
    reveal_strlit("POST\n/v1/telemetry/raw\n");
    let text = canonical(timestamp, digest);
    let time = crate::decimal::decimal(timestamp);
    let hex = crate::hex_text::lower_hex(digest);
    let at = 23 + time.len() + 1;
    crate::hex_text::law_lower_text_reads_back(digest);
    assert(text.take(23) =~= "POST\n/v1/telemetry/raw\n"@);
    assert(text.subrange(23, 23 + time.len() as int) =~= time);
    assert forall|i: int| 0 <= i < hex.len() implies #[trigger] text[at + i] == hex[i] by {}
    assert forall|i: int| 0 <= i < digest.len() implies {
        let high = text[at + 2 * i];
        let low = text[at + 2 * i + 1];
        &&& '0' <= high <= '9' || 'a' <= high <= 'f'
        &&& '0' <= low <= '9' || 'a' <= low <= 'f'
        &&& #[trigger] digest[i] == 16 * (if high <= '9' {
            high as int - 0x30
        } else {
            high as int - 0x61 + 10
        }) + (if low <= '9' {
            low as int - 0x30
        } else {
            low as int - 0x61 + 10
        })
    } by {
        assert(text[at + (2 * i)] == hex[2 * i]);
        assert(text[at + (2 * i + 1)] == hex[2 * i + 1]);
    }
}

/// The signature, its digits read back, is the code of the text for the body's
/// digest under the bytes of the secret, and nothing else.
pub proof fn law_signature_is_the_code_of_the_text(
    secret: Seq<char>,
    timestamp: int,
    body: Seq<u8>,
)
    ensures
        ({
            let signature = signature_of(secret, timestamp, body);
            let code = hmac_sha256_of(
                encode_utf8(secret),
                encode_utf8(canonical(timestamp, sha256_of(body))),
            );
            &&& signature.len() == 2 * code.len()
            &&& forall|i: int|
                0 <= i < code.len() ==> {
                    let high = signature[2 * i];
                    let low = signature[2 * i + 1];
                    &&& '0' <= high <= '9' || 'a' <= high <= 'f'
                    &&& '0' <= low <= '9' || 'a' <= low <= 'f'
                    &&& #[trigger] code[i] == 16 * (if high <= '9' {
                        high as int - 0x30
                    } else {
                        high as int - 0x61 + 10
                    }) + (if low <= '9' {
                        low as int - 0x30
                    } else {
                        low as int - 0x61 + 10
                    })
                }
        }),
{
    crate::hex_text::law_lower_text_reads_back(
        hmac_sha256_of(
            encode_utf8(secret),
            encode_utf8(canonical(timestamp, sha256_of(body))),
        ),
    );
}

/// Whole seconds are those that have passed, counted from zero in either
/// direction.
pub proof fn law_seconds_are_whole(millis: int)
    ensures
        millis >= 0 ==> 1000 * whole_seconds(millis) <= millis < 1000 * whole_seconds(millis)
            + 1000,
        whole_seconds(-millis) == -whole_seconds(millis),
{
}

} // verus!
