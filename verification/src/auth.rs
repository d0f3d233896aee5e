//! The values that the vendor's identity service takes and gives.

use vstd::prelude::*;
use vstd::string::*;

verus! {

/// The base64 text of a run of bytes: standard alphabet, with padding.
pub uninterp spec fn base64_text(data: Seq<u8>) -> Seq<char>;

/// The longest input that is encoded: its base64 text still fits a 32-bit
/// length.
pub const MAX_BASE64_INPUT: usize = 0x3000_0000;

/// `base64::encode` on a byte slice: the base64 text of the bytes in the
/// standard alphabet with padding. The call panics where the length of the
/// text overflows, which `requires` leaves out.
#[verifier::external_body]
fn base64_encode(data: &[u8]) -> (s: String)
    requires
        data@.len() <= MAX_BASE64_INPUT,
    ensures
        s@ == base64_text(data@),
{
    base64::encode(data)
}

/// The bytes that are encoded for a client: the id, a colon, the secret.
pub open spec fn credential_bytes(client_id: &str, secret: &str) -> Seq<u8> {
    client_id.spec_bytes() + seq![58u8] + secret.spec_bytes()
}

/// The credentials of a client of the identity service.
#[derive(Debug, Clone)]
pub struct ClientToken {
    pub client_id: String,
    pub secret: String,
    pub encoded: String,
}

impl ClientToken {
    /// The credentials of a client, with their encoded form.
    pub fn new(client_id: &str, secret: &str) -> (token: Self)
        requires
            credential_bytes(client_id, secret).len() <= MAX_BASE64_INPUT,
        ensures
            token.client_id@ == client_id@,
            token.secret@ == secret@,
            token.encoded@ == base64_text(credential_bytes(client_id, secret)),
    {
        let mut bytes: Vec<u8> = Vec::new();
        bytes.extend_from_slice(client_id.as_bytes());
        bytes.push(58u8);
        bytes.extend_from_slice(secret.as_bytes());
        assert(bytes@ =~= credential_bytes(client_id, secret));
        let encoded = base64_encode(bytes.as_slice());
        Self { client_id: client_id.to_owned(), secret: secret.to_owned(), encoded }
    }

    /// The encoded credentials, as `Display` would print them.
    pub fn to_string(&self) -> (s: String)
        ensures
            s@ == self.encoded@,
    {
        self.encoded.clone()
    }

    /// The value of the header that authorizes a request for a token.
    pub fn authorization_header(&self) -> (s: String)
        ensures
            s@ == "basic "@ + self.encoded@,
    {
        let mut s = "basic ".to_owned();
        s.append(self.encoded.as_str());
        s
    }
}

/// A device that was registered with an account.
#[derive(Debug)]
pub struct Device {
    pub account_id: String,
    pub device_id: String,
    pub secret: String,
}

impl Device {
    /// A device with the given ids and secret.
    pub fn new(account_id: &str, device_id: &str, secret: &str) -> (device: Self)
        ensures
            device.account_id@ == account_id@,
            device.device_id@ == device_id@,
            device.secret@ == secret@,
    {
        Self {
            account_id: account_id.to_owned(),
            device_id: device_id.to_owned(),
            secret: secret.to_owned(),
        }
    }
}

/// A code that is exchanged for a session.
#[derive(Debug)]
pub struct ExchangeCode {
    pub code: String,
}

/// What the identity service answers to a successful request for a token.
#[derive(Debug)]
pub struct AuthResponse {
    pub access_token: String,
    pub refresh_token: String,
    pub expires_at: String,
    pub refresh_expires_at: String,
}

impl AuthResponse {
    /// The value of the header that authorizes a request with this session.
    pub fn authorization_header(&self) -> (s: String)
        ensures
            s@ == "bearer "@ + self.access_token@,
    {
        let mut s = "bearer ".to_owned();
        s.append(self.access_token.as_str());
        s
    }
}

} // verus!
