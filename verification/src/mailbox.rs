//! The identity of one mailbox and the errors of its operations.

use vstd::prelude::*;

verus! {

/// Grammar of the authorization token and of the message that is signed.
#[derive(Clone, Copy, Debug, PartialEq, Eq, Structural)]
pub enum TokenFormat {
    /// Fields separated by a colon; the token carries the nonce count.
    ColonDelimited,
    /// Fields written one after the other; the token omits the nonce count.
    Concatenated,
}

/// What can go wrong in a mailbox operation.
#[derive(Debug, PartialEq, Eq)]
pub enum MailboxError {
    /// The request did not reach the service or its answer could not be read.
    TransportError { detail: String },
    /// The service answered with a status outside 200..=299.
    RemoteError { status: u16, body: String },
    /// A header value holds a character that no transport header may carry.
    HeaderEncodingError,
    /// The signing key was not accepted.
    KeyError,
    /// The clock gave a time that has no twelve-digit minute stamp.
    TimestampError,
}

/// One endpoint of the service: where it is, who asks, and how requests are signed.
pub struct Mailbox {
    url: String,
    id: String,
    password: String,
    shared_key: Vec<u8>,
    format: TokenFormat,
}

impl Mailbox {
    pub closed spec fn url_text(&self) -> Seq<char> {
        self.url@
    }

    pub closed spec fn id_text(&self) -> Seq<char> {
        self.id@
    }

    pub closed spec fn password_text(&self) -> Seq<char> {
        self.password@
    }

    pub closed spec fn key_bytes(&self) -> Seq<u8> {
        self.shared_key@
    }

    pub closed spec fn token_format(&self) -> TokenFormat {
        self.format
    }

    /// A mailbox that signs in the colon-delimited grammar.
    pub fn new(url: String, id: String, password: String, shared_key: Vec<u8>) -> (m: Self)
        ensures
            m.url_text() == url@,
            m.id_text() == id@,
            m.password_text() == password@,
            m.key_bytes() == shared_key@,
            m.token_format() == TokenFormat::ColonDelimited,
    {
        Mailbox { url, id, password, shared_key, format: TokenFormat::ColonDelimited }
    }

    /// The same mailbox, signing in the given grammar.
    pub fn with_format(self, format: TokenFormat) -> (m: Self)
        ensures
            m.url_text() == self.url_text(),
            m.id_text() == self.id_text(),
            m.password_text() == self.password_text(),
            m.key_bytes() == self.key_bytes(),
            m.token_format() == format,
    {
        Mailbox {
            url: self.url,
            id: self.id,
            password: self.password,
            shared_key: self.shared_key,
            format,
        }
    }

    pub fn url(&self) -> (s: &str)
        ensures
            s@ == self.url_text(),
    {
        self.url.as_str()
    }

    pub fn id(&self) -> (s: &str)
        ensures
            s@ == self.id_text(),
    {
        self.id.as_str()
    }

    pub fn password(&self) -> (s: &str)
        ensures
            s@ == self.password_text(),
    {
        self.password.as_str()
    }

    pub fn shared_key(&self) -> (k: &[u8])
        ensures
            k@ == self.key_bytes(),
    {
        self.shared_key.as_slice()
    }

    pub fn format(&self) -> (f: TokenFormat)
        ensures
            f == self.token_format(),
    {
        self.format
    }
}

} // verus!
