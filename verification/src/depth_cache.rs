//! Cache keying for fetched depth maps: a depth result is stored under the
//! hex-written SHA-256 digest of the input image bytes followed by the
//! service address, so the same input against the same service is found
//! again and anything else misses.

use vstd::prelude::*;
use vstd::slice::slice_to_vec;
use vstd::string::StrSliceExecFns;
use vstd::string::StringSliceAdditionalSpecFns;
use sha2::Digest;
use crate::text::push_char;

verus! {

/// Where the depth service lives and where its results are cached.
pub struct DepthConfig {
    pub comfy_url: String,
    pub cache_dir: Option<String>,
}

/// What sha2's Sha256 returns for the given bytes: it depends on the bytes
/// alone, and the algorithm is not restated here.
pub uninterp spec fn sha256_of(data: Seq<u8>) -> Seq<u8>;

/// Relies on sha2's Sha256: the digest of the input bytes, 32 bytes long.
#[verifier::external_body]
fn sha256_digest(data: &[u8]) -> (r: Vec<u8>)
    ensures
        r@ == sha256_of(data@),
        r@.len() == 32,
{
    sha2::Sha256::digest(data).to_vec()
}

/// The lower-case hex character for a value below 16.
pub open spec fn hex_digit_char(d: int) -> char {
    if d < 10 {
        (48 + d) as u8 as char
    } else {
        (87 + d) as u8 as char
    }
}

/// `data` written in lower-case hex, two characters per byte.
pub open spec fn hex_of(data: Seq<u8>) -> Seq<char> {
    Seq::new(
        data.len() * 2,
        |i: int|
            if i % 2 == 0 {
                hex_digit_char((data[i / 2] >> 4u8) as int)
            } else {
                hex_digit_char((data[i / 2] & 0xfu8) as int)
            },
    )
}

/// Writes bytes in lower-case hex.
#[verifier::loop_isolation(false)]
fn to_hex(data: &Vec<u8>) -> (r: String)
    ensures
        r@ == hex_of(data@),
{
    let mut r = String::new();
    let mut i: usize = 0;
    proof {
        assert(r@ =~= hex_of(data@).take(0));
    }
    while i < data.len()
        invariant
            i <= data@.len(),
            r@ == hex_of(data@).take(2 * i as int),
        decreases data@.len() - i,
    {
        let b = data[i];
        let hi: u8 = b >> 4;
        let lo: u8 = b & 0xf;
        proof {
            assert(b >> 4 < 16 && b & 0xf < 16) by (bit_vector);
        }
        let hc: char = if hi < 10 {
            (48 + hi) as char
        } else {
            (87 + hi) as char
        };
        let lc: char = if lo < 10 {
            (48 + lo) as char
        } else {
            (87 + lo) as char
        };
        push_char(&mut r, hc);
        push_char(&mut r, lc);
        proof {
            assert(hex_of(data@)[2 * i as int] == hc);
            assert(hex_of(data@)[2 * i as int + 1] == lc);
            assert(hex_of(data@).take(2 * (i + 1)) =~= hex_of(data@).take(2 * i as int).push(
                hc,
            ).push(lc));
        }
        i = i + 1;
    }
    proof {
        assert(hex_of(data@).take(2 * data@.len() as int) =~= hex_of(data@));
    }
    r
}

/// The cache key of a depth request: the SHA-256 digest of the input image
/// bytes followed by the service address, written in lower-case hex.
pub fn create_cache_key(input_contents: &[u8], comfy_url: &str) -> (r: String)
    ensures
        r@ == hex_of(sha256_of(input_contents@ + comfy_url.spec_bytes())),
{
    let mut buf: Vec<u8> = slice_to_vec(input_contents);
    let url_bytes: &[u8] = comfy_url.as_bytes();
    let mut i: usize = 0;
    while i < url_bytes.len()
        invariant
            i <= url_bytes@.len(),
            buf@ == input_contents@ + url_bytes@.take(i as int),
        decreases url_bytes@.len() - i,
    {
        buf.push(url_bytes[i]);
        proof {
            assert(input_contents@ + url_bytes@.take(i + 1) =~= (input_contents@
                + url_bytes@.take(i as int)).push(url_bytes@[i as int]));
        }
        i = i + 1;
    }
    proof {
        assert(url_bytes@.take(url_bytes@.len() as int) =~= url_bytes@);
    }
    let digest = sha256_digest(buf.as_slice());
    to_hex(&digest)
}

} // verus!
