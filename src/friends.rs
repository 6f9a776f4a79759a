//! Friend-link requests: where one is filed, and when no more are taken.
use base64::Engine;
use sha1::Digest;
use vstd::prelude::*;
use vstd::utf8::encode_utf8;

use crate::errors::CatError;

verus! {

/// A request to be listed among the friend links.
pub struct FriendRequest {
    pub name: String,
    pub url: String,
    pub avatar: String,
    pub description: String,
    pub email: String,
}

/// How many filed requests are kept waiting before new ones are refused.
pub const MAX_PENDING_REQUESTS: usize = 1000;

/// The SHA-1 digest of some bytes.
pub uninterp spec fn sha1_of(b: Seq<u8>) -> Seq<u8>;

/// The URL-safe base64 encoding of some bytes, without padding.
pub uninterp spec fn base64_url_of(b: Seq<u8>) -> Seq<char>;

/// Relies on sha1::Sha1's `Digest::digest`: the SHA-1 digest of `b`, 20 bytes.
#[verifier::external_body]
fn sha1_digest(b: &[u8]) -> (r: Vec<u8>)
    ensures
        r@ == sha1_of(b@),
        r@.len() == 20,
{
    sha1::Sha1::digest(b).to_vec()
}

/// Relies on base64's `BASE64_URL_SAFE_NO_PAD` engine: `b` encoded.
#[verifier::external_body]
fn base64_url(b: &Vec<u8>) -> (r: String)
    ensures
        r@ == base64_url_of(b@),
{
    base64::prelude::BASE64_URL_SAFE_NO_PAD.encode(b)
}

/// The name (without extension) of the file a request is filed under: the
/// URL-safe base64 of the SHA-1 of its URL, so that one site files once.
pub fn request_file_stem(req: &FriendRequest) -> (r: String)
    ensures
        r@ == base64_url_of(sha1_of(encode_utf8(req.url@))),
{
    let digest = sha1_digest(req.url.as_str().as_bytes());
    base64_url(&digest)
}

/// Whether one more request may be filed when `pending` are waiting.
pub fn admit_request(pending: usize) -> (r: Result<(), CatError>)
    ensures
        r is Ok <==> pending <= MAX_PENDING_REQUESTS,
        r matches Err(e) ==> e matches CatError::Custom(m) && m@ == "Too many friend requests"@,
{
    if pending > MAX_PENDING_REQUESTS {
        return Err(CatError::Custom(String::from_str("Too many friend requests")));
    }
    Ok(())
}

} // verus!
