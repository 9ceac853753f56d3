use vstd::prelude::*;
use vstd::string::{StringExecFns, StringSliceAdditionalSpecFns};
use vstd::utf8::{decode_utf8, valid_utf8};
use crate::error::DocsError;

verus! {

/// How long a cached response stays good: one day, in seconds.
pub const CACHE_TTL_SECS: u64 = 86400;

/// A cached response: when it was stored, as seconds since the Unix
/// epoch, for which URL, and its body.
#[derive(Debug, Clone)]
pub struct CacheEntry {
    pub cached_at: u64,
    pub url: String,
    pub body: String,
}

impl CacheEntry {
    /// The entry is stale at `now`: older than the time to live. An entry
    /// from the future is not stale.
    pub open spec fn stale_at(self, now: u64) -> bool {
        now >= self.cached_at && now - self.cached_at > CACHE_TTL_SECS
    }

    /// Whether the entry is older at `now` than the time to live.
    pub fn is_expired(&self, now: u64) -> (r: bool)
        ensures
            r == self.stale_at(now),
    {
        now >= self.cached_at && now - self.cached_at > CACHE_TTL_SECS
    }
}

/// What unpacking a zstd frame gives: the bytes it holds, or the words
/// of the failure.
pub uninterp spec fn unpacked(bytes: Seq<u8>) -> Result<Seq<u8>, Seq<char>>;

/// The SHA-256 digest of the bytes.
pub uninterp spec fn sha256_of(bytes: Seq<u8>) -> Seq<u8>;

/// The lower-case hex digit of a number below sixteen.
pub open spec fn hex_digit(n: u8) -> char {
    if n < 10 {
        ('0' as u8 + n) as char
    } else {
        ('a' as u8 + (n - 10)) as char
    }
}

/// The bytes in hex: two lower-case digits for each.
pub open spec fn hex_text(bytes: Seq<u8>) -> Seq<char>
    decreases bytes.len(),
{
    if bytes.len() == 0 {
        Seq::empty()
    } else {
        hex_text(bytes.drop_last()) + seq![
            hex_digit(bytes.last() / 16),
            hex_digit(bytes.last() % 16),
        ]
    }
}

/// Unpacks a zstd frame. Holds `zstd::decode_all` on the bytes, whose
/// outcome depends on them alone; a failure comes back as its words.
#[verifier::external_body]
fn zstd_decode(bytes: &[u8]) -> (r: Result<Vec<u8>, String>)
    ensures
        match r {
            Ok(v) => unpacked(bytes@) == Ok::<Seq<u8>, Seq<char>>(v@),
            Err(e) => unpacked(bytes@) == Err::<Seq<u8>, Seq<char>>(e@),
        },
{
    zstd::decode_all(std::io::Cursor::new(bytes)).map_err(|e| e.to_string())
}

/// Reads bytes as UTF-8. Holds `String::from_utf8`, which succeeds on
/// valid UTF-8 and on nothing else, and keeps the bytes; a failure comes
/// back as its words.
#[verifier::external_body]
fn text_from_utf8(bytes: Vec<u8>) -> (r: Result<String, String>)
    ensures
        match r {
            Ok(s) => valid_utf8(bytes@) && s@ == decode_utf8(bytes@),
            Err(_) => !valid_utf8(bytes@),
        },
{
    String::from_utf8(bytes).map_err(|e| e.to_string())
}

/// The SHA-256 digest of the bytes. Holds `sha2::Sha256`'s `digest`,
/// which depends on the bytes alone.
#[verifier::external_body]
fn sha256(bytes: &[u8]) -> (r: Vec<u8>)
    ensures
        r@ == sha256_of(bytes@),
{
    <sha2::Sha256 as sha2::Digest>::digest(bytes).to_vec()
}

/// The bytes in hex. Holds `hex::encode`, which writes each byte as two
/// lower-case hex digits.
#[verifier::external_body]
fn hex_encode(bytes: &Vec<u8>) -> (r: String)
    ensures
        r@ == hex_text(bytes@),
{
    hex::encode(bytes)
}

/// The key under which the response to a URL is cached: the SHA-256
/// digest of the URL in hex.
pub fn cache_key(url: &str) -> (key: String)
    ensures
        key@ == hex_text(sha256_of(url.spec_bytes())),
{
    let digest = sha256(url.as_bytes());
    hex_encode(&digest)
}

/// The name of the file that holds the entry for `key`.
pub fn cache_file_name(key: &str) -> (name: String)
    ensures
        name@ == key@ + ".json"@,
{
    let mut name = String::from_str(key);
    name.append(".json");
    name
}

/// Unpacks a zstd-compressed UTF-8 text.
///
/// Fails where the bytes are no zstd frame, with the words of that
/// failure after `Zstd decompression failed: `, and where what they hold
/// is no UTF-8, with a message that begins
/// `Decompressed content is not valid UTF-8: `.
pub fn decompress_zstd(bytes: &[u8]) -> (r: Result<String, DocsError>)
    ensures
        match r {
            Ok(s) => unpacked(bytes@) is Ok && valid_utf8(unpacked(bytes@)->Ok_0) && s@
                == decode_utf8(unpacked(bytes@)->Ok_0),
            Err(DocsError::Other(m)) => match unpacked(bytes@) {
                Ok(data) => !valid_utf8(data) && crate::text::begins_with(
                    m@,
                    "Decompressed content is not valid UTF-8: "@,
                ),
                Err(e) => m@ == "Zstd decompression failed: "@ + e,
            },
            Err(_) => false,
        },
{
    let data = match zstd_decode(bytes) {
        Ok(d) => d,
        Err(e) => {
            let mut m = String::from_str("Zstd decompression failed: ");
            m.append(e.as_str());
            return Err(DocsError::Other(m));
        },
    };
    match text_from_utf8(data) {
        Ok(s) => Ok(s),
        Err(e) => {
            let mut m = String::from_str("Decompressed content is not valid UTF-8: ");
            let ghost head = m@;
            m.append(e.as_str());
            assert(m@.subrange(0, head.len() as int) =~= head);
            Err(DocsError::Other(m))
        },
    }
}

} // verus!
