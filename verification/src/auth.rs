//! Checks that a message was signed with the shared secret.

use ring::hmac;
use vstd::prelude::*;
use vstd::slice::slice_to_vec;

verus! {

/// The longest secret and the longest message, in bytes, that a check
/// takes: 2^60, out of reach of any memory.
pub const MAX_INPUT_LEN: u64 = 0x1000_0000_0000_0000;

/// The HMAC-SHA256 tag of `data` under the key value `secret`, as RFC 2104
/// defines it.
pub uninterp spec fn hmac_sha256(secret: Seq<u8>, data: Seq<u8>) -> Seq<u8>;

/// The shared secret that tags are checked against.
pub struct Key {
    secret: Vec<u8>,
}

impl View for Key {
    type V = Seq<u8>;

    /// The bytes of the secret.
    closed spec fn view(&self) -> Seq<u8> {
        self.secret@
    }
}

/// Why a message could not be checked at all.
#[derive(Copy, Clone, Debug, PartialEq, Eq, Structural)]
pub enum AuthError {
    /// The message is empty.
    MissingData,
    /// The tag is empty.
    MissingTag,
}

impl AuthError {
    /// The error in words.
    pub fn message(&self) -> (text: &'static str)
        ensures
            text@ == match *self {
                AuthError::MissingData => "Body is required"@,
                AuthError::MissingTag => "MAC is required"@,
            },
    {
        match self {
            AuthError::MissingData => "Body is required",
            AuthError::MissingTag => "MAC is required",
        }
    }
}

/// Keeps `secret` as the key of all later checks.
pub fn make_key(secret: &[u8]) -> (key: Key)
    ensures
        key@ == secret@,
{
    Key { secret: slice_to_vec(secret) }
}

/// Makes a key with `ring::hmac::Key::new` from `HMAC_SHA256` and `secret`
/// and hands it to `ring::hmac::verify` with `data` and `tag`. Trusted, not
/// proved: `verify` computes the HMAC-SHA256 tag of `data` under that key and
/// accepts exactly when `tag` equals it, in length and in every byte. Left
/// out are inputs so long that their length in bits overflows 64 bits, where
/// `new` panics and `verify` fails whatever the tag is.
#[verifier::external_body]
fn hmac_verify(secret: &[u8], data: &[u8], tag: &[u8]) -> (ok: bool)
    requires
        secret@.len() <= MAX_INPUT_LEN,
        data@.len() <= MAX_INPUT_LEN,
    ensures
        ok == (tag@ == hmac_sha256(secret@, data@)),
{
    let key = hmac::Key::new(hmac::HMAC_SHA256, secret);
    hmac::verify(&key, data, tag).is_ok()
}

/// What a check of `mac` against `body` under `secret` comes to.
pub open spec fn verify_hash_spec(body: Seq<u8>, mac: Seq<u8>, secret: Seq<u8>) -> Result<
    bool,
    AuthError,
> {
    if body.len() < 1 {
        Err(AuthError::MissingData)
    } else if mac.len() < 1 {
        Err(AuthError::MissingTag)
    } else {
        Ok(
            body.len() <= MAX_INPUT_LEN && secret.len() <= MAX_INPUT_LEN && mac == hmac_sha256(
                secret,
                body,
            ),
        )
    }
}

/// Verifies that `mac` is the tag of `body` under `key`. An empty message
/// or an empty tag is an error; any other tag than the right one is
/// `Ok(false)`, as is every tag where the message or the secret is longer
/// than `MAX_INPUT_LEN`.
/// The comparison takes the same time wherever the two differ.
pub fn verify_hash(body: &[u8], mac: &[u8], key: &Key) -> (r: Result<bool, AuthError>)
    ensures
        r == verify_hash_spec(body@, mac@, key@),
{
    if body.len() < 1 {
        return Err(AuthError::MissingData);
    }
    if mac.len() < 1 {
        return Err(AuthError::MissingTag);
    }
    if body.len() as u64 > MAX_INPUT_LEN || key.secret.len() as u64 > MAX_INPUT_LEN {
        return Ok(false);
    }
    Ok(hmac_verify(key.secret.as_slice(), body, mac))
}

/// The tag of a message verifies: a message of at least one byte, with its
/// own tag under the key, is accepted, as long as neither the message nor
/// the secret is longer than `MAX_INPUT_LEN`.
pub proof fn lemma_signed_pair_verifies(body: Seq<u8>, secret: Seq<u8>)
    ensures
        0 < body.len() <= MAX_INPUT_LEN && secret.len() <= MAX_INPUT_LEN && hmac_sha256(
            secret,
            body,
        ).len() > 0
            ==> verify_hash_spec(body, hmac_sha256(secret, body), secret) == Ok::<bool, AuthError>(
            true,
        ),
{
}

/// Nothing but the tag verifies: whatever differs from the tag of the
/// message under the key, be it by one bit, by its length, or because it
/// was made for another message or under another key, is turned down, and
/// with `Ok(false)`, not with an error.
pub proof fn lemma_other_tag_fails(body: Seq<u8>, mac: Seq<u8>, secret: Seq<u8>)
    ensures
        body.len() > 0 && mac.len() > 0 && mac != hmac_sha256(secret, body) ==> verify_hash_spec(
            body,
            mac,
            secret,
        ) == Ok::<bool, AuthError>(false),
{
}

/// The tag of a message does not verify a changed message, nor under
/// another key, wherever the change gives another tag.
pub proof fn lemma_tag_of_other_input_fails(
    body: Seq<u8>,
    secret: Seq<u8>,
    other_body: Seq<u8>,
    other_secret: Seq<u8>,
)
    ensures
        body.len() > 0 && hmac_sha256(other_secret, other_body).len() > 0 && hmac_sha256(
            other_secret,
            other_body,
        ) != hmac_sha256(secret, body) ==> verify_hash_spec(
            body,
            hmac_sha256(other_secret, other_body),
            secret,
        ) == Ok::<bool, AuthError>(false),
{
}

/// Without a message there is nothing to check, whatever the tag and the
/// key; with a message but without a tag there is nothing to check it
/// against.
pub proof fn lemma_missing_input_is_an_error(body: Seq<u8>, mac: Seq<u8>, secret: Seq<u8>)
    ensures
        verify_hash_spec(Seq::empty(), mac, secret) == Err::<bool, AuthError>(
            AuthError::MissingData,
        ),
        body.len() > 0 ==> verify_hash_spec(body, Seq::empty(), secret) == Err::<bool, AuthError>(
            AuthError::MissingTag,
        ),
{
}

} // verus!
