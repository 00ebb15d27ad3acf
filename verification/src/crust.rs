//! A pinning service as a second blob store: what it is asked with, and when
//! its answer counts as success.
//!
//! The service takes the signature of the account over its own name as a
//! password, adds a file under its content identifier, and is then asked to
//! pin it. The requests themselves are the caller's.

use vstd::prelude::*;
use vstd::string::*;
use vstd::utf8::encode_utf8;
use crate::error::Error;
use crate::text::same;

verus! {

/// Where a file is added.
pub const ADD_URL: &'static str = "https://crustwebsites.net/api/v0/add";

/// Where a pin is asked for.
pub const PIN_URL: &'static str = "https://pin.crustcode.com/psa/pins";

/// Where a stored file is read.
pub const GATEWAY_URL: &'static str = "https://crustwebsites.net/ipfs/";

/// The status with which the service takes a pin on.
pub const QUEUED: &'static str = "queued";

/// The character of a hexadecimal digit, in lower case.
pub open spec fn hex_digit(n: int) -> char {
    seq!['0', '1', '2', '3', '4', '5', '6', '7', '8', '9', 'a', 'b', 'c', 'd', 'e', 'f'][n]
}

/// Bytes in hexadecimal: two digits in lower case for each byte, the high
/// half first.
pub open spec fn hex_text(data: Seq<u8>) -> Seq<char> {
    Seq::new(
        2 * data.len(),
        |i: int|
            hex_digit(
                if i % 2 == 0 {
                    data[i / 2] as int / 16
                } else {
                    data[i / 2] as int % 16
                },
            ),
    )
}

/// Bytes in base 64 with the standard alphabet and padding, as the crate
/// `base64` writes them.
pub uninterp spec fn base64_text(data: Seq<u8>) -> Seq<char>;

/// The longest input that the encoders below are given: half of what a
/// `usize` can count, so that the length of what they write can be counted
/// too.
pub open spec fn encoder_limit() -> int {
    usize::MAX as int / 2
}

/// Calls `hex::encode`, which writes two hexadecimal digits in lower case for
/// each byte. It counts twice the length of its input, which `requires` keeps
/// in range.
#[verifier::external_body]
fn hex_encode(data: &[u8]) -> (text: String)
    requires
        data@.len() <= encoder_limit(),
    ensures
        text@ == hex_text(data@),
{
    hex::encode(data)
}

/// Calls `base64::encode`, the standard encoding with padding: a function of
/// the bytes alone. It panics where the length of its output cannot be
/// counted, which `requires` rules out.
#[verifier::external_body]
fn base64_encode(data: &[u8]) -> (text: String)
    requires
        data@.len() <= encoder_limit(),
    ensures
        text@ == base64_text(data@),
{
    base64::encode(data)
}

/// What the service is given as name and password before it is encoded: the
/// account with the prefix `sub-`, a colon, and the signature in hexadecimal
/// behind `0x`.
pub open spec fn plain_credentials(account: Seq<char>, signature: Seq<u8>) -> Seq<char> {
    "sub-"@ + account + ":0x"@ + hex_text(signature)
}

/// The credentials of an account for the service: name and password in base
/// 64. `None` where the signature or the credentials are too long to be
/// encoded.
pub fn credentials(account: &str, signature: &[u8]) -> (token: Option<String>)
    ensures
        token is Some <==> signature@.len() <= encoder_limit() && encode_utf8(
            plain_credentials(account@, signature@),
        ).len() <= encoder_limit(),
        token matches Some(t) ==> t@ == base64_text(
            encode_utf8(plain_credentials(account@, signature@)),
        ),
{
    if signature.len() > usize::MAX / 2 {
        return None;
    }
    let mut plain = "sub-".to_owned();
    plain.append(account);
    plain.append(":0x");
    plain.append(hex_encode(signature).as_str());
    let bytes = plain.as_str().as_bytes();
    if bytes.len() > usize::MAX / 2 {
        return None;
    }
    Some(base64_encode(bytes))
}

/// The header that carries the credentials when a file is added.
pub fn basic_authorization(token: &str) -> (header: String)
    ensures
        header@ == "Basic "@ + token@,
{
    let mut header = "Basic ".to_owned();
    header.append(token);
    header
}

/// The header that carries the credentials when a pin is asked for.
pub fn bearer_authorization(token: &str) -> (header: String)
    ensures
        header@ == "Bearer "@ + token@,
{
    let mut header = "Bearer ".to_owned();
    header.append(token);
    header
}

/// The address under which the service hands out the file with this content
/// identifier.
pub fn gateway_address(cid: &str) -> (url: String)
    ensures
        url@ == GATEWAY_URL@ + cid@,
{
    let mut url = GATEWAY_URL.to_owned();
    url.append(cid);
    url
}

/// The answer of the service to an added file.
#[derive(Clone, Debug, PartialEq, Eq)]
pub struct ResponseAdd {
    hash: String,
}

impl ResponseAdd {
    /// The content identifier of the file.
    pub closed spec fn hash_text(self) -> Seq<char> {
        self.hash@
    }

    /// The answer that names `hash`.
    pub fn new(hash: String) -> (r: Self)
        ensures
            r.hash_text() == hash@,
    {
        ResponseAdd { hash }
    }

    /// The content identifier of the file.
    pub fn hash(&self) -> (hash: &String)
        ensures
            hash@ == self.hash_text(),
    {
        &self.hash
    }
}

/// The request to pin a file.
#[derive(Clone, Debug, PartialEq, Eq)]
pub struct RequestPin {
    cid: String,
    name: String,
}

impl RequestPin {
    /// The content identifier of the file to pin.
    pub closed spec fn cid_text(self) -> Seq<char> {
        self.cid@
    }

    /// The name under which the pin is kept.
    pub closed spec fn name_text(self) -> Seq<char> {
        self.name@
    }

    /// The request to pin the file `cid` under its own content identifier as
    /// name.
    pub fn new(cid: String) -> (r: Self)
        ensures
            r.cid_text() == cid@,
            r.name_text() == cid@,
    {
        RequestPin { name: cid.clone(), cid }
    }

    /// The content identifier of the file to pin.
    pub fn cid(&self) -> (cid: &String)
        ensures
            cid@ == self.cid_text(),
    {
        &self.cid
    }

    /// The name under which the pin is kept.
    pub fn name(&self) -> (name: &String)
        ensures
            name@ == self.name_text(),
    {
        &self.name
    }
}

/// The answer of the service to a request to pin.
#[derive(Clone, Debug, PartialEq, Eq)]
pub struct ResponsePin {
    status: String,
}

impl ResponsePin {
    /// The status that the service reports.
    pub closed spec fn status_text(self) -> Seq<char> {
        self.status@
    }

    /// The answer with the status `status`.
    pub fn new(status: String) -> (r: Self)
        ensures
            r.status_text() == status@,
    {
        ResponsePin { status }
    }

    /// The status that the service reports.
    pub fn status(&self) -> (status: &String)
        ensures
            status@ == self.status_text(),
    {
        &self.status
    }

    /// Whether the service has taken the pin on: it has if and only if it
    /// reports the status `queued`.
    pub fn accepted(&self) -> (r: Result<(), Error>)
        ensures
            r is Ok <==> self.status_text() == QUEUED@,
            r is Err ==> r == Err::<(), Error>(Error::Unavailable),
    {
        if same(self.status.as_str(), QUEUED) {
            Ok(())
        } else {
            Err(Error::Unavailable)
        }
    }
}

} // verus!
