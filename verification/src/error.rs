//! Failures of connecting, of the token handshake and of sending.
use crate::autoconfig::FallbackReason;
use crate::client::MAX_TX_BYTES;
use crate::text::{decimal, hex};
use vstd::prelude::*;

verus! {

broadcast use vstd::string::group_string_axioms;

/// How an established or a nascent QUIC connection came to an end.
#[derive(Clone, Copy, Debug, PartialEq, Eq, Structural)]
pub enum ConnectionErrorKind {
    /// The peer speaks no version that this side speaks.
    VersionMismatch,
    /// The transport was violated, or its TLS handshake failed.
    TransportError,
    /// The peer's transport closed the connection.
    ConnectionClosed,
    /// The peer's application closed the connection with this code.
    ApplicationClosed(u64),
    /// The peer no longer knows the connection.
    Reset,
    /// The connection idled out.
    TimedOut,
    /// This side closed the connection.
    LocallyClosed,
    /// No connection identifier was left.
    CidsExhausted,
}

/// The end of a QUIC connection, with the transport's own description of it.
#[derive(Debug)]
pub struct ConnectionError {
    pub kind: ConnectionErrorKind,
    pub description: String,
}

/// How writing to a stream failed.
#[derive(Clone, Copy, Debug, PartialEq, Eq, Structural)]
pub enum WriteErrorKind {
    /// The peer stopped the stream with this code.
    Stopped(u64),
    /// The connection under the stream is gone.
    ConnectionLost,
    /// The stream was finished or reset before.
    ClosedStream,
    /// The stream was opened before the handshake, and the peer rejected it.
    ZeroRttRejected,
}

/// A failed write to a stream, with the transport's own description of it.
#[derive(Debug)]
pub struct WriteError {
    pub kind: WriteErrorKind,
    pub description: String,
}

/// Connection-establishment failures.
#[non_exhaustive]
#[derive(Debug)]
pub enum ConnectError {
    /// The endpoint's name or address cannot be used.
    Resolve(String),
    /// The dial could not be started.
    Dial(String),
    /// The QUIC connection failed.
    Connection(ConnectionError),
    /// The token handshake failed.
    Handshake(HandshakeError),
    /// TLS could not be set up.
    Tls(String),
    /// A setting is not acceptable.
    Config(String),
    /// The local socket could not be set up.
    Io(String),
    /// Autoconfiguration found no endpoint that could be used.
    AutoConfig(AutoConfigError),
}

/// Token-handshake outcomes, derived from the server's connection-close code.
#[non_exhaustive]
#[derive(Debug)]
pub enum HandshakeError {
    /// The token is unknown or invalid.
    Unauthorized,
    /// The token has too many connections already.
    TooManyConnections,
    /// The server did not understand the handshake.
    BadRequest,
    /// The token was withdrawn.
    Revoked,
    /// The handshake stream failed.
    Io(String),
    /// No reply came in time.
    Timeout,
    /// The server closed with a code that has no meaning here.
    Unexpected(u64),
}

/// Why neither a discovered endpoint nor a fallback could be connected to.
#[derive(Debug)]
pub struct AutoConfigError {
    /// Why no discovered endpoint was used.
    pub reason: FallbackReason,
    /// The static endpoint that was tried instead, if one is configured.
    pub fallback_endpoint: Option<String>,
    /// How the static endpoint failed, if it was tried.
    pub fallback_error: Option<Box<ConnectError>>,
}

/// Per-transaction send failures.
#[non_exhaustive]
#[derive(Debug)]
pub enum SendError {
    /// The transaction has this many bytes, more than one packet holds.
    TooLarge(usize),
    /// The send took too long.
    Timeout,
    /// The connection was lost before the stream was open.
    ConnectionLost(ConnectionError),
    /// Writing the transaction failed.
    StreamWrite(WriteError),
    /// The stream was closed before it was finished.
    StreamClosed(String),
    /// The connection could not be re-established, and retrying would not help.
    Reconnect(ConnectError),
    /// The connection could not be re-established in the attempts allowed.
    ReconnectExhausted { attempts: u32, last: Box<ConnectError> },
}

impl HandshakeError {
    /// The failure in words.
    pub open spec fn text(&self) -> Seq<char> {
        match self {
            HandshakeError::Unauthorized => "unauthorized (unknown or invalid token)"@,
            HandshakeError::TooManyConnections => "too many connections for this token"@,
            HandshakeError::BadRequest => "bad request"@,
            HandshakeError::Revoked => "revoked"@,
            HandshakeError::Io(e) => "handshake i/o error: "@ + e@,
            HandshakeError::Timeout => "handshake timed out"@,
            HandshakeError::Unexpected(code) => "server closed with unexpected code 0x"@
                + crate::text::hex_digits(*code as nat),
        }
    }

    /// The failure in words.
    pub fn message(&self) -> (s: String)
        ensures
            s@ == self.text(),
    {
        match self {
            HandshakeError::Unauthorized => "unauthorized (unknown or invalid token)".to_owned(),
            HandshakeError::TooManyConnections => "too many connections for this token".to_owned(),
            HandshakeError::BadRequest => "bad request".to_owned(),
            HandshakeError::Revoked => "revoked".to_owned(),
            HandshakeError::Io(e) => "handshake i/o error: ".to_owned().concat(e.as_str()),
            HandshakeError::Timeout => "handshake timed out".to_owned(),
            HandshakeError::Unexpected(code) => "server closed with unexpected code 0x".to_owned()
                .concat(hex(*code).as_str()),
        }
    }
}

impl ConnectError {
    /// The failure in words.
    pub open spec fn text(&self) -> Seq<char>
        decreases self,
    {
        match self {
            ConnectError::Resolve(e) => "address resolution failed: "@ + e@,
            ConnectError::Dial(e) => "quic dial failed: "@ + e@,
            ConnectError::Connection(e) => "quic connection failed: "@ + e.description@,
            ConnectError::Handshake(e) => "handshake failed: "@ + e.text(),
            ConnectError::Tls(e) => "tls setup failed: "@ + e@,
            ConnectError::Config(e) => "invalid client configuration: "@ + e@,
            ConnectError::Io(e) => "endpoint setup failed: "@ + e@,
            ConnectError::AutoConfig(e) => "autoconfiguration failed: "@ + e.text(),
        }
    }

    /// The failure in words.
    pub fn message(&self) -> (s: String)
        ensures
            s@ == self.text(),
        decreases self,
    {
        match self {
            ConnectError::Resolve(e) => "address resolution failed: ".to_owned().concat(e.as_str()),
            ConnectError::Dial(e) => "quic dial failed: ".to_owned().concat(e.as_str()),
            ConnectError::Connection(e) => "quic connection failed: ".to_owned().concat(
                e.description.as_str(),
            ),
            ConnectError::Handshake(e) => "handshake failed: ".to_owned().concat(
                e.message().as_str(),
            ),
            ConnectError::Tls(e) => "tls setup failed: ".to_owned().concat(e.as_str()),
            ConnectError::Config(e) => "invalid client configuration: ".to_owned().concat(
                e.as_str(),
            ),
            ConnectError::Io(e) => "endpoint setup failed: ".to_owned().concat(e.as_str()),
            ConnectError::AutoConfig(e) => "autoconfiguration failed: ".to_owned().concat(
                e.message().as_str(),
            ),
        }
    }
}

impl AutoConfigError {
    /// The failure in words.
    pub open spec fn text(&self) -> Seq<char>
        decreases self,
    {
        self.reason.text() + match (self.fallback_endpoint, self.fallback_error) {
            (None, _) => "; set AutoConfig::fallback_endpoint to connect without discovery"@,
            (Some(endpoint), None) => "; fallback endpoint "@ + endpoint@ + " also failed"@,
            (Some(endpoint), Some(error)) => "; fallback endpoint "@ + endpoint@ + " also failed: "@
                + error.text(),
        }
    }

    /// The failure in words.
    pub fn message(&self) -> (s: String)
        ensures
            s@ == self.text(),
        decreases self,
    {
        let mut s = self.reason.message();
        let ghost reason = s@;
        match &self.fallback_endpoint {
            None => {
                s.append("; set AutoConfig::fallback_endpoint to connect without discovery");
            },
            Some(endpoint) => {
                s.append("; fallback endpoint ");
                s.append(endpoint.as_str());
                match &self.fallback_error {
                    None => {
                        s.append(" also failed");
                    },
                    Some(error) => {
                        s.append(" also failed: ");
                        s.append(error.message().as_str());
                    },
                }
            },
        }
        assert(s@ =~= self.text());
        s
    }
}

impl SendError {
    /// The failure in words.
    pub open spec fn text(&self) -> Seq<char> {
        match self {
            SendError::TooLarge(len) => "transaction is "@ + crate::text::decimal_digits(
                *len as nat,
            ) + " bytes, exceeds maximum "@ + crate::text::decimal_digits(MAX_TX_BYTES as nat),
            SendError::Timeout => "transaction send timed out"@,
            SendError::ConnectionLost(e) => "connection lost: "@ + e.description@,
            SendError::StreamWrite(e) => "stream write failed: "@ + e.description@,
            SendError::StreamClosed(e) => "stream closed before finish: "@ + e@,
            SendError::Reconnect(e) => "reconnect failed: "@ + e.text(),
            SendError::ReconnectExhausted { attempts, last } => "reconnect gave up after "@
                + crate::text::decimal_digits(*attempts as nat) + " attempts; last error: "@
                + last.text(),
        }
    }

    /// The failure in words.
    pub fn message(&self) -> (s: String)
        ensures
            s@ == self.text(),
    {
        match self {
            SendError::TooLarge(len) => "transaction is ".to_owned().concat(
                decimal(*len as u64).as_str(),
            ).concat(" bytes, exceeds maximum ").concat(decimal(MAX_TX_BYTES as u64).as_str()),
            SendError::Timeout => "transaction send timed out".to_owned(),
            SendError::ConnectionLost(e) => "connection lost: ".to_owned().concat(
                e.description.as_str(),
            ),
            SendError::StreamWrite(e) => "stream write failed: ".to_owned().concat(
                e.description.as_str(),
            ),
            SendError::StreamClosed(e) => "stream closed before finish: ".to_owned().concat(
                e.as_str(),
            ),
            SendError::Reconnect(e) => "reconnect failed: ".to_owned().concat(
                e.message().as_str(),
            ),
            SendError::ReconnectExhausted { attempts, last } => "reconnect gave up after ".to_owned()
                .concat(decimal(*attempts as u64).as_str()).concat(
                " attempts; last error: ",
            ).concat(last.message().as_str()),
        }
    }
}

/// A failed handshake in words.
pub proof fn law_handshake_texts(text: String, code: u64)
    ensures
        HandshakeError::Unauthorized.text() == "unauthorized (unknown or invalid token)"@,
        HandshakeError::TooManyConnections.text() == "too many connections for this token"@,
        HandshakeError::BadRequest.text() == "bad request"@,
        HandshakeError::Revoked.text() == "revoked"@,
        HandshakeError::Io(text).text() == "handshake i/o error: "@ + text@,
        HandshakeError::Timeout.text() == "handshake timed out"@,
        HandshakeError::Unexpected(code).text() == "server closed with unexpected code 0x"@
            + crate::text::hex_digits(code as nat),
{
}

/// A failure to connect in words: what failed, then why.
pub proof fn law_connect_texts(
    text: String,
    c: ConnectionError,
    h: HandshakeError,
    a: AutoConfigError,
)
    ensures
        ConnectError::Resolve(text).text() == "address resolution failed: "@ + text@,
        ConnectError::Dial(text).text() == "quic dial failed: "@ + text@,
        ConnectError::Connection(c).text() == "quic connection failed: "@ + c.description@,
        ConnectError::Handshake(h).text() == "handshake failed: "@ + h.text(),
        ConnectError::Tls(text).text() == "tls setup failed: "@ + text@,
        ConnectError::Config(text).text() == "invalid client configuration: "@ + text@,
        ConnectError::Io(text).text() == "endpoint setup failed: "@ + text@,
        ConnectError::AutoConfig(a).text() == "autoconfiguration failed: "@ + a.text(),
{
}

/// A failed automatic connect in words: why no discovered endpoint was used, then what became of
/// the static endpoint, or that one would help.
pub proof fn law_autoconfig_texts(a: AutoConfigError)
    ensures
        a.fallback_endpoint is None ==> a.text() == a.reason.text()
            + "; set AutoConfig::fallback_endpoint to connect without discovery"@,
        a.fallback_endpoint matches Some(endpoint) ==> match a.fallback_error {
            Some(error) => a.text() == a.reason.text() + ("; fallback endpoint "@ + endpoint@
                + " also failed: "@ + error.text()),
            None => a.text() == a.reason.text() + ("; fallback endpoint "@ + endpoint@
                + " also failed"@),
        },
{
    reveal_with_fuel(AutoConfigError::text, 2);
}

/// A failed send in words: what failed, then why.
pub proof fn law_send_texts(
    len: usize,
    attempts: u32,
    text: String,
    c: ConnectionError,
    w: WriteError,
    e: ConnectError,
)
    ensures
        SendError::TooLarge(len).text() == "transaction is "@ + crate::text::decimal_digits(
            len as nat,
        ) + " bytes, exceeds maximum "@ + crate::text::decimal_digits(1232),
        SendError::Timeout.text() == "transaction send timed out"@,
        SendError::ConnectionLost(c).text() == "connection lost: "@ + c.description@,
        SendError::StreamWrite(w).text() == "stream write failed: "@ + w.description@,
        SendError::StreamClosed(text).text() == "stream closed before finish: "@ + text@,
        SendError::Reconnect(e).text() == "reconnect failed: "@ + e.text(),
        (SendError::ReconnectExhausted { attempts, last: Box::new(e) }).text()
            == "reconnect gave up after "@ + crate::text::decimal_digits(attempts as nat)
            + " attempts; last error: "@ + e.text(),
{
}

} // verus!
