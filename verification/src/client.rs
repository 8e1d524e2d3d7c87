//! The rules of the ingress protocol, of sending and of reconnecting.
use crate::address::{host_of, SocketAddr};
use crate::autoconfig::EndpointSource;
use crate::config::{config_verdict, ClientConfig, ReconnectPolicy};
use crate::duration::Duration;
use crate::error::{
    ConnectError, ConnectionError, ConnectionErrorKind, HandshakeError, SendError, WriteError,
    WriteErrorKind,
};
use crate::text::decimal;
use vstd::prelude::*;
use vstd::utf8::encode_utf8;

verus! {

broadcast use vstd::string::group_string_axioms;

/// Maximum transaction payload (Solana packet size).
pub const MAX_TX_BYTES: usize = 1232;

/// Hard cap on token length (mirror of the server's handshake limit).
pub const MAX_TOKEN_BYTES: usize = 200;

/// Handshake line prefix (note the trailing space).
pub const HANDSHAKE_PREFIX: &'static str = "SOLANA-GUN-QUIC/1 ";

/// Connection-close application code: unknown or invalid token.
pub const CLOSE_UNAUTHORIZED: u64 = 0x01;

/// Connection-close application code: malformed handshake.
pub const CLOSE_BAD_REQUEST: u64 = 0x02;

/// Connection-close application code: too many connections for the token.
pub const CLOSE_TOO_MANY: u64 = 0x03;

/// Connection-close application code: the token was withdrawn.
pub const CLOSE_REVOKED: u64 = 0x04;

// ---------------------------------------------------------------------------------------
// Token handshake
// ---------------------------------------------------------------------------------------
/// Whether `b` is a visible ASCII character.
pub open spec fn is_graphic(b: u8) -> bool {
    0x21 <= b <= 0x7e
}

/// What is wrong with a token, given its bytes.
pub open spec fn token_problem(token: Seq<u8>) -> Option<Seq<char>> {
    if token.len() == 0 {
        Some("token is empty"@)
    } else if token.len() > MAX_TOKEN_BYTES {
        Some(
            "token is "@ + crate::text::decimal_digits(token.len()) + " bytes, exceeds maximum "@
                + crate::text::decimal_digits(MAX_TOKEN_BYTES as nat),
        )
    } else if exists|i: int| 0 <= i < token.len() && !is_graphic(#[trigger] token[i]) {
        Some("token must be printable ASCII with no spaces or control characters"@)
    } else {
        None
    }
}

/// Reject tokens the server's line-based handshake parser would refuse, so a bad token
/// fails locally with a clear error instead of an opaque server BadRequest.
pub fn validate_token(token: &str) -> (r: Result<(), ConnectError>)
    ensures
        config_verdict(r, token_problem(encode_utf8(token@))),
{
    let bytes = token.as_bytes();
    let len: usize = bytes.len();
    if len == 0 {
        return Err(ConnectError::Config("token is empty".to_owned()));
    }
    if len > MAX_TOKEN_BYTES {
        return Err(
            ConnectError::Config(
                "token is ".to_owned().concat(decimal(len as u64).as_str()).concat(
                    " bytes, exceeds maximum ",
                ).concat(decimal(MAX_TOKEN_BYTES as u64).as_str()),
            ),
        );
    }
    for i in 0..len
        invariant
            len == bytes@.len(),
            0 < len <= MAX_TOKEN_BYTES,
            bytes@ == encode_utf8(token@),
            forall|j: int| 0 <= j < i ==> is_graphic(#[trigger] bytes@[j]),
    {
        let b: u8 = bytes[i];
        if b < 0x21 || b > 0x7e {
            assert(!is_graphic(bytes@[i as int]));
            return Err(
                ConnectError::Config(
                    "token must be printable ASCII with no spaces or control characters".to_owned(),
                ),
            );
        }
    }
    Ok(())
}

/// The line that opens the handshake.
pub open spec fn handshake_line_of(token: Seq<u8>) -> Seq<u8> {
    encode_utf8(HANDSHAKE_PREFIX@) + token + seq![0x0au8]
}

/// The line that opens the handshake: the prefix, the token and a line feed. It is written
/// in memory allocated once, so that no copy of the token is left behind.
pub fn handshake_line(token: &str) -> (line: Vec<u8>)
    requires
        handshake_line_of(encode_utf8(token@)).len() <= isize::MAX,
    ensures
        line@ == handshake_line_of(encode_utf8(token@)),
{
    let prefix = HANDSHAKE_PREFIX.as_bytes();
    let bytes = token.as_bytes();
    let mut line: Vec<u8> = Vec::with_capacity(prefix.len() + bytes.len() + 1);
    for i in 0..prefix.len()
        invariant
            line@ == prefix@.take(i as int),
    {
        line.push(prefix[i]);
        assert(prefix@.take(i + 1) =~= prefix@.take(i as int).push(prefix@[i as int]));
    }
    assert(prefix@.take(prefix@.len() as int) =~= prefix@);
    for i in 0..bytes.len()
        invariant
            line@ == prefix@ + bytes@.take(i as int),
    {
        line.push(bytes[i]);
        assert(bytes@.take(i + 1) =~= bytes@.take(i as int).push(bytes@[i as int]));
    }
    assert(bytes@.take(bytes@.len() as int) =~= bytes@);
    line.push(0x0a);
    line
}

/// The handshake line of an acceptable token is one line, and the token can be read back
/// from it: what stands between the prefix and the line feed.
pub proof fn law_handshake_line(token: Seq<u8>)
    requires
        token_problem(token) is None,
    ensures
        handshake_line_of(token).take(18) == encode_utf8("SOLANA-GUN-QUIC/1 "@),
        handshake_line_of(token).last() == 0x0au8,
        forall|i: int|
            0 <= i < handshake_line_of(token).len() - 1 ==> #[trigger] handshake_line_of(token)[i]
                != 0x0au8,
        handshake_line_of(token).subrange(18, handshake_line_of(token).len() - 1) == token,
        handshake_line_of(token).len() <= 18 + MAX_TOKEN_BYTES + 1,
{
    reveal_strlit("SOLANA-GUN-QUIC/1 ");
    vstd::utf8::is_ascii_chars_encode_utf8(HANDSHAKE_PREFIX@);
    let line = handshake_line_of(token);
    assert(line.subrange(18, line.len() - 1) =~= token);
    assert(line.take(18) =~= encode_utf8("SOLANA-GUN-QUIC/1 "@));
    assert forall|i: int| 0 <= i < line.len() - 1 implies #[trigger] line[i] != 0x0au8 by {
        if i < 18 {
            assert(line[i] == HANDSHAKE_PREFIX@[i] as u8);
        } else {
            assert(line[i] == token[i - 18]);
            assert(is_graphic(token[i - 18]));
        }
    }
}

/// The tokens that are accepted are those of 1 to 200 visible ASCII characters.
pub proof fn law_acceptable_tokens(token: Seq<u8>)
    ensures
        token_problem(token) is None <==> 1 <= token.len() <= 200 && forall|i: int|
            0 <= i < token.len() ==> 0x21 <= #[trigger] token[i] <= 0x7e,
{
    if forall|i: int| 0 <= i < token.len() ==> 0x21 <= #[trigger] token[i] <= 0x7e {
        assert forall|i: int| 0 <= i < token.len() implies is_graphic(#[trigger] token[i]) by {}
    } else {
        let i = choose|i: int| 0 <= i < token.len() && !(0x21 <= #[trigger] token[i] <= 0x7e);
        assert(!is_graphic(token[i]));
    }
}

/// A token that is refused is refused for the first of these: it is empty, it is longer than
/// 200 bytes, one of its bytes is no visible ASCII character.
pub proof fn law_refused_tokens(token: Seq<u8>)
    ensures
        token.len() == 0 ==> token_problem(token) == Some("token is empty"@),
        token.len() > 200 ==> token_problem(token) == Some(
            "token is "@ + crate::text::decimal_digits(token.len()) + " bytes, exceeds maximum "@
                + crate::text::decimal_digits(200),
        ),
        forall|i: int|
            0 <= i < token.len() <= 200 && !(0x21 <= #[trigger] token[i] <= 0x7e)
                ==> token_problem(token) == Some(
                "token must be printable ASCII with no spaces or control characters"@,
            ),
{
    assert forall|i: int|
        0 <= i < token.len() <= 200 && !(0x21 <= #[trigger] token[i] <= 0x7e) implies token_problem(
        token,
    ) == Some("token must be printable ASCII with no spaces or control characters"@) by {
        assert(!is_graphic(token[i]));
    }
}

/// The server's handshake ack is exactly `OK\n`; anything else is a failure.
pub fn handshake_reply_ok(buf: &[u8]) -> (ok: bool)
    ensures
        ok == (buf@ == seq![0x4fu8, 0x4bu8, 0x0au8]),
{
    let ok = buf.len() == 3 && buf[0] == 0x4f && buf[1] == 0x4b && buf[2] == 0x0a;
    assert(ok ==> buf@ =~= seq![0x4fu8, 0x4bu8, 0x0au8]);
    ok
}

/// What the server means by closing a connection with `code`.
pub open spec fn close_meaning(code: u64) -> HandshakeError {
    if code == CLOSE_UNAUTHORIZED {
        HandshakeError::Unauthorized
    } else if code == CLOSE_BAD_REQUEST {
        HandshakeError::BadRequest
    } else if code == CLOSE_TOO_MANY {
        HandshakeError::TooManyConnections
    } else if code == CLOSE_REVOKED {
        HandshakeError::Revoked
    } else {
        HandshakeError::Unexpected(code)
    }
}

/// What the server means by closing a connection with `code`.
pub fn code_to_err(code: u64) -> (e: HandshakeError)
    ensures
        e == close_meaning(code),
{
    match code {
        CLOSE_UNAUTHORIZED => HandshakeError::Unauthorized,
        CLOSE_BAD_REQUEST => HandshakeError::BadRequest,
        CLOSE_TOO_MANY => HandshakeError::TooManyConnections,
        CLOSE_REVOKED => HandshakeError::Revoked,
        other => HandshakeError::Unexpected(other),
    }
}

/// What the end of the connection means for the handshake: the meaning of the server's close
/// code, or else a failure of the stream.
pub open spec fn lost_handshake(e: ConnectionError) -> HandshakeError {
    match e.kind {
        ConnectionErrorKind::ApplicationClosed(code) => close_meaning(code),
        _ => HandshakeError::Io(e.description),
    }
}

/// What the end of the connection means for the handshake.
pub fn map_close(e: ConnectionError) -> (h: HandshakeError)
    ensures
        h == lost_handshake(e),
{
    match e.kind {
        ConnectionErrorKind::ApplicationClosed(code) => code_to_err(code),
        _ => HandshakeError::Io(e.description),
    }
}

/// What the end of the connection, if it has ended, means for a handshake that got no ack.
pub fn connection_close_error(close_reason: Option<ConnectionError>) -> (h: HandshakeError)
    ensures
        h == match close_reason {
            Some(e) => lost_handshake(e),
            None => HandshakeError::Unexpected(0),
        },
{
    match close_reason {
        Some(e) => map_close(e),
        None => HandshakeError::Unexpected(0),
    }
}

/// How long to wait for the server's reply to the handshake line, in milliseconds.
pub const HANDSHAKE_REPLY_MILLIS: u64 = 750;

/// How many bytes of a reply to the handshake line are read.
pub const HANDSHAKE_REPLY_BYTES: usize = 16;

/// What came of writing the handshake line and reading the server's reply.
#[derive(Debug)]
pub enum HandshakeExchange {
    /// No stream could be opened.
    OpenFailed(ConnectionError),
    /// The line could not be written, for this reason.
    WriteFailed(String),
    /// No reply in time.
    TimedOut,
    /// The reply broke off, or was too long.
    ReadFailed,
    /// The whole reply.
    Reply(Vec<u8>),
}

/// What an exchange means for the handshake. `close_reason` is why the connection has ended,
/// if it has.
pub open spec fn handshake_verdict(
    exchange: HandshakeExchange,
    close_reason: Option<ConnectionError>,
) -> Result<(), HandshakeError> {
    match exchange {
        HandshakeExchange::OpenFailed(e) => Err(lost_handshake(e)),
        HandshakeExchange::WriteFailed(e) => Err(HandshakeError::Io(e)),
        HandshakeExchange::TimedOut => Err(HandshakeError::Timeout),
        HandshakeExchange::Reply(buf) if buf@ == seq![0x4fu8, 0x4bu8, 0x0au8] => Ok(()),
        _ => Err(
            match close_reason {
                Some(e) => lost_handshake(e),
                None => HandshakeError::Unexpected(0),
            },
        ),
    }
}

/// What an exchange means for the handshake. `close_reason` is why the connection has ended,
/// if it has.
pub fn handshake(exchange: HandshakeExchange, close_reason: Option<ConnectionError>) -> (r: Result<
    (),
    HandshakeError,
>)
    ensures
        r == handshake_verdict(exchange, close_reason),
{
    let buf = match exchange {
        HandshakeExchange::OpenFailed(e) => {
            return Err(map_close(e));
        },
        HandshakeExchange::WriteFailed(e) => {
            return Err(HandshakeError::Io(e));
        },
        HandshakeExchange::TimedOut => {
            return Err(HandshakeError::Timeout);
        },
        HandshakeExchange::ReadFailed => {
            return Err(connection_close_error(close_reason));
        },
        HandshakeExchange::Reply(buf) => buf,
    };
    if handshake_reply_ok(buf.as_slice()) {
        Ok(())
    } else {
        Err(connection_close_error(close_reason))
    }
}

/// What a handshake comes to that got no ack, by how the connection ended: where the server
/// closed it with code 0x01, 0x02, 0x03 or 0x04, the token is unauthorized, the request was
/// bad, there are too many connections, or the token is revoked; any other code is reported as
/// it is, any other end in its own words. The same holds where no stream could be opened. A
/// reply that stays out is a timeout, and a line that cannot be written is reported as such,
/// however the connection ended.
pub proof fn law_handshake_without_ack(
    exchange: HandshakeExchange,
    close_reason: Option<ConnectionError>,
)
    ensures
        exchange is ReadFailed || (exchange matches HandshakeExchange::Reply(buf) && buf@ != seq![
            0x4fu8,
            0x4bu8,
            0x0au8,
        ]) ==> match close_reason {
            None => handshake_verdict(exchange, close_reason) == Err::<(), _>(
                HandshakeError::Unexpected(0),
            ),
            Some(end) => match end.kind {
                ConnectionErrorKind::ApplicationClosed(code) => handshake_verdict(
                    exchange,
                    close_reason,
                ) == Err::<(), _>(
                    if code == 0x01 {
                        HandshakeError::Unauthorized
                    } else if code == 0x02 {
                        HandshakeError::BadRequest
                    } else if code == 0x03 {
                        HandshakeError::TooManyConnections
                    } else if code == 0x04 {
                        HandshakeError::Revoked
                    } else {
                        HandshakeError::Unexpected(code)
                    },
                ),
                _ => handshake_verdict(exchange, close_reason) == Err::<(), _>(
                    HandshakeError::Io(end.description),
                ),
            },
        },
        exchange matches HandshakeExchange::OpenFailed(end) ==> match end.kind {
            ConnectionErrorKind::ApplicationClosed(code) => handshake_verdict(
                exchange,
                close_reason,
            ) == Err::<(), _>(
                if code == 0x01 {
                    HandshakeError::Unauthorized
                } else if code == 0x02 {
                    HandshakeError::BadRequest
                } else if code == 0x03 {
                    HandshakeError::TooManyConnections
                } else if code == 0x04 {
                    HandshakeError::Revoked
                } else {
                    HandshakeError::Unexpected(code)
                },
            ),
            _ => handshake_verdict(exchange, close_reason) == Err::<(), _>(
                HandshakeError::Io(end.description),
            ),
        },
        exchange matches HandshakeExchange::WriteFailed(e) ==> handshake_verdict(
            exchange,
            close_reason,
        ) == Err::<(), _>(HandshakeError::Io(e)),
        exchange is TimedOut ==> handshake_verdict(exchange, close_reason) == Err::<(), _>(
            HandshakeError::Timeout,
        ),
{
}

/// A server that refuses the token ends every run of reconnecting: where it closes the
/// connection with 0x01, 0x02 or 0x04 in place of the ack, the failure is terminal; with any
/// other code, or none, it is not.
pub proof fn law_refusal_is_terminal(exchange: HandshakeExchange, end: ConnectionError)
    requires
        exchange is ReadFailed || (exchange matches HandshakeExchange::Reply(buf) && buf@ != seq![
            0x4fu8,
            0x4bu8,
            0x0au8,
        ]),
    ensures
        handshake_verdict(exchange, Some(end)) matches Err(h) && (terminal(
            ConnectError::Handshake(h),
        ) <==> end.kind == ConnectionErrorKind::ApplicationClosed(0x01) || end.kind
            == ConnectionErrorKind::ApplicationClosed(0x02) || end.kind
            == ConnectionErrorKind::ApplicationClosed(0x04)),
        handshake_verdict(exchange, None) matches Err(h) && !terminal(ConnectError::Handshake(h)),
{
}

/// The end of a connection means the same to a handshake wherever it is noticed: the server's
/// close code if there is one, else its own words.
pub proof fn law_lost_handshake(end: ConnectionError, code: u64)
    ensures
        end.kind == ConnectionErrorKind::ApplicationClosed(code) ==> lost_handshake(end)
            == close_meaning(code),
        !(end.kind is ApplicationClosed) ==> lost_handshake(end) == HandshakeError::Io(
            end.description,
        ),
        close_meaning(0x01) is Unauthorized,
        close_meaning(0x02) is BadRequest,
        close_meaning(0x03) is TooManyConnections,
        close_meaning(0x04) is Revoked,
        code == 0 || code > 4 ==> close_meaning(code) == HandshakeError::Unexpected(code),
{
}

/// The token is accepted where the server answers with its ack in time, and nowhere else.
pub proof fn law_only_the_ack_accepts(
    exchange: HandshakeExchange,
    close_reason: Option<ConnectionError>,
)
    ensures
        handshake_verdict(exchange, close_reason) is Ok <==> (exchange matches
            HandshakeExchange::Reply(buf) && buf@ == encode_utf8("OK\n"@)),
{
    reveal_strlit("OK\n");
    vstd::utf8::is_ascii_chars_encode_utf8("OK\n"@);
    assert(encode_utf8("OK\n"@) =~= seq![0x4fu8, 0x4bu8, 0x0au8]);
}

// ---------------------------------------------------------------------------------------
// Connecting
// ---------------------------------------------------------------------------------------
/// What is wrong before anything is dialed: the settings, or else the token.
pub open spec fn preflight_problem(config: ClientConfig, token: Seq<u8>) -> Option<Seq<char>> {
    match config.problem() {
        Some(problem) => Some(problem),
        None => token_problem(token),
    }
}

/// Nothing is dialed unless the settings and the token are both acceptable; where both are not,
/// the settings are what is reported.
pub proof fn law_preflight(config: ClientConfig, token: Seq<u8>)
    ensures
        preflight_problem(config, token) is None <==> config.problem() is None && token_problem(
            token,
        ) is None,
        config.problem() is Some ==> preflight_problem(config, token) == config.problem(),
        config.problem() is None ==> preflight_problem(config, token) == token_problem(token),
{
}

/// Checks the settings, then the token, before anything is dialed.
pub fn preflight(config: &ClientConfig, token: &str) -> (r: Result<(), ConnectError>)
    ensures
        config_verdict(r, preflight_problem(*config, encode_utf8(token@))),
{
    match config.validate() {
        Err(e) => Err(e),
        Ok(()) => validate_token(token),
    }
}

/// What came of one dial and its handshake.
#[derive(Debug)]
pub enum DialOutcome {
    /// Connected, and the token accepted.
    Connected,
    /// Failed.
    Failed(ConnectError),
    /// Not done in the time given.
    Elapsed,
}

/// The error of a dial that did not connect: its own, or a handshake timeout where the time
/// ran out.
pub open spec fn dial_error(outcome: DialOutcome) -> Option<ConnectError> {
    match outcome {
        DialOutcome::Connected => None,
        DialOutcome::Failed(e) => Some(e),
        DialOutcome::Elapsed => Some(ConnectError::Handshake(HandshakeError::Timeout)),
    }
}

/// What the outcome of the first dial means to the caller: its error, if it has one.
pub open spec fn first_dial_result(outcome: DialOutcome) -> Result<(), ConnectError> {
    match dial_error(outcome) {
        None => Ok(()),
        Some(e) => Err(e),
    }
}

/// The first dial succeeds where it connected, and nowhere else; its own failure is reported as it
/// is, and one that took too long as a handshake timeout.
pub proof fn law_first_dial(outcome: DialOutcome)
    ensures
        first_dial_result(outcome) is Ok <==> outcome is Connected,
        outcome matches DialOutcome::Failed(e) ==> first_dial_result(outcome) == Err::<(), _>(e),
        outcome is Elapsed ==> first_dial_result(outcome) == Err::<(), _>(
            ConnectError::Handshake(HandshakeError::Timeout),
        ),
{
}

/// What the outcome of the first dial means to the caller.
pub fn first_dial(outcome: DialOutcome) -> (r: Result<(), ConnectError>)
    ensures
        r == first_dial_result(outcome),
        r == match dial_error(outcome) {
            None => Ok(()),
            Some(e) => Err(e),
        },
{
    match outcome {
        DialOutcome::Connected => Ok(()),
        DialOutcome::Failed(e) => Err(e),
        DialOutcome::Elapsed => Err(ConnectError::Handshake(HandshakeError::Timeout)),
    }
}

/// A dial that connected has no error, one that failed has its own, and one that took too long
/// is a handshake timeout.
pub proof fn law_dial_error(e: ConnectError)
    ensures
        dial_error(DialOutcome::Connected) is None,
        dial_error(DialOutcome::Failed(e)) == Some(e),
        dial_error(DialOutcome::Elapsed) == Some(ConnectError::Handshake(HandshakeError::Timeout)),
{
}

/// What a connected client keeps for its lifetime. Reconnecting dials the same address under
/// the same name, and hands over the same token, so the endpoint stays the one that was chosen.
pub struct Session {
    /// The address that was dialed.
    pub addr: SocketAddr,
    /// The name that the server's certificate has to bear.
    pub server_name: String,
    /// The token that was accepted. Whoever holds the session wipes it in the end.
    pub token: String,
    /// How the endpoint was chosen.
    pub source: EndpointSource,
    pub reconnect: ReconnectPolicy,
    pub send_timeout: Duration,
}

/// Whether `session` is what a client keeps that connected to `addr` under this name, with this
/// token, from this source and with these settings.
pub open spec fn opened(
    addr: SocketAddr,
    server_name: Seq<char>,
    token: Seq<char>,
    source: EndpointSource,
    config: ClientConfig,
    session: Session,
) -> bool {
    &&& session.addr == addr
    &&& session.server_name@ == server_name
    &&& session.token@ == token
    &&& session.source == source
    &&& session.reconnect == config.reconnect
    &&& session.send_timeout == config.send_timeout
}

/// Two clients that connected alike keep alike: every redial goes where the first dial went, with
/// the same token, and under the deadlines and the policy of the settings, and the source is the
/// one that the endpoint was chosen by.
pub proof fn law_opened(
    addr: SocketAddr,
    server_name: Seq<char>,
    token: Seq<char>,
    source: EndpointSource,
    config: ClientConfig,
    session: Session,
)
    requires
        opened(addr, server_name, token, source, config, session),
    ensures
        session.source == source,
        session.addr == addr,
        session.server_name@ == server_name,
        session.token@ == token,
        session.reconnect.enabled == config.reconnect.enabled,
        session.reconnect.connect_timeout == config.reconnect.connect_timeout,
        session.reconnect.initial_backoff == config.reconnect.initial_backoff,
        session.reconnect.max_backoff == config.reconnect.max_backoff,
        session.reconnect.max_attempts == config.reconnect.max_attempts,
        session.send_timeout == config.send_timeout,
{
}

impl Session {
    /// What a client keeps that connected to `addr`.
    pub fn open(
        addr: SocketAddr,
        server_name: &str,
        token: &str,
        source: EndpointSource,
        config: &ClientConfig,
    ) -> (session: Session)
        ensures
            opened(addr, server_name@, token@, source, *config, session),
            session.addr == addr,
            session.server_name@ == server_name@,
            session.token@ == token@,
            session.source == source,
            session.reconnect == config.reconnect,
            session.send_timeout == config.send_timeout,
    {
        Session {
            addr,
            server_name: server_name.to_owned(),
            token: token.to_owned(),
            source,
            reconnect: config.reconnect,
            send_timeout: config.send_timeout,
        }
    }

    /// What a client keeps that connected to an endpoint which the caller named.
    pub fn manual(
        addr: SocketAddr,
        server_name: &str,
        token: &str,
        config: &ClientConfig,
    ) -> (session: Session)
        ensures
            opened(addr, server_name@, token@, EndpointSource::Manual, *config, session),
            session.addr == addr,
            session.server_name@ == server_name@,
            session.token@ == token@,
            session.source is Manual,
            session.reconnect == config.reconnect,
            session.send_timeout == config.send_timeout,
    {
        Session::open(addr, server_name, token, EndpointSource::Manual, config)
    }

    /// What every dial goes to: the address, and the name that the certificate has to bear.
    pub fn target(&self) -> (t: (SocketAddr, &str))
        ensures
            t.0 == self.addr,
            t.1@ == self.server_name@,
    {
        (self.addr, self.server_name.as_str())
    }

    /// How the endpoint was chosen.
    pub fn endpoint_source(&self) -> (source: &EndpointSource)
        ensures
            *source == self.source,
    {
        &self.source
    }
}

/// What came of resolving a name.
#[derive(Debug)]
pub enum Lookup {
    /// No answer in the time given, which is also given in words.
    TimedOut(String),
    /// The resolver's error.
    Failed(String),
    /// The addresses, in the resolver's order.
    Found(Vec<SocketAddr>),
}

/// Whether `r` is the host that the certificate of the server at `addr` has to name, or why there
/// is none.
pub open spec fn host_settled(addr: Seq<char>, r: Result<&str, ConnectError>) -> bool {
    match host_of(addr) {
        Ok(host) => r matches Ok(h) && h@ == host,
        Err(e) => r matches Err(ConnectError::Resolve(m)) && m@ == e,
    }
}

/// The certificate has to name what stands before the last colon of an address, or in the brackets
/// with which it begins; an address without either cannot be resolved.
pub proof fn law_host_settled(addr: Seq<char>, at: int, r: Result<&str, ConnectError>)
    requires
        host_settled(addr, r),
    ensures
        0 < addr.len() && addr[0] != '[' && 0 <= at < addr.len() && addr[at] == ':' && (forall|
            i: int,
        |
            at < i < addr.len() ==> #[trigger] addr[i] != ':') ==> (r matches Ok(host) && host@
            == addr.subrange(0, at)),
        0 < addr.len() && addr[0] == '[' && 0 <= at < addr.len() && addr[at] == ']' && (forall|
            i: int,
        |
            0 <= i < at ==> #[trigger] addr[i] != ']') ==> (r matches Ok(host) && host@
            == addr.subrange(1, at)),
        (addr.len() == 0 || addr[0] != '[') && !addr.contains(':') ==> (r matches Err(e)
            && e matches ConnectError::Resolve(m) && m@ == "missing port in "@ + addr),
        0 < addr.len() && addr[0] == '[' && !addr.contains(']') ==> (r matches Err(e)
            && e matches ConnectError::Resolve(m) && m@ == "unterminated IPv6 literal in "@ + addr),
{
    crate::address::law_no_host(addr);
    if 0 < addr.len() && addr[0] != '[' && 0 <= at < addr.len() && addr[at] == ':' && (forall|
        i: int,
    |
        at < i < addr.len() ==> #[trigger] addr[i] != ':') {
        crate::address::law_plain_host(addr, at);
    }
    if 0 < addr.len() && addr[0] == '[' && 0 <= at < addr.len() && addr[at] == ']' && (forall|
        i: int,
    |
        0 <= i < at ==> #[trigger] addr[i] != ']') {
        crate::address::law_bracketed_host(addr, at);
    }
}

/// The host that the certificate of the server at `addr` has to name.
pub fn connect_host(addr: &str) -> (r: Result<&str, ConnectError>)
    ensures
        host_settled(addr@, r),
        match host_of(addr@) {
            Ok(host) => r matches Ok(h) && h@ == host,
            Err(e) => r matches Err(ConnectError::Resolve(m)) && m@ == e,
        },
{
    match crate::address::server_host(addr) {
        Ok(host) => Ok(host),
        Err(e) => Err(ConnectError::Resolve(e)),
    }
}

/// Whether `r` is what a lookup of `addr` comes to: a queue of the addresses that were found, or
/// why there are none.
pub open spec fn queued(
    addr: Seq<char>,
    lookup: Lookup,
    r: Result<DialQueue, ConnectError>,
) -> bool {
    match lookup {
        Lookup::TimedOut(_) => r matches Err(ConnectError::Resolve(m)) && m@ == "dns lookup for "@
            + addr + " timed out"@,
        Lookup::Failed(e) => r == Err::<DialQueue, _>(ConnectError::Resolve(e)),
        Lookup::Found(addrs) => if addrs@.len() == 0 {
            r matches Err(ConnectError::Resolve(m)) && m@ == "no addresses for "@ + addr
        } else {
            r == Ok::<_, ConnectError>(DialQueue::start(addrs))
        },
    }
}

/// There is something to dial if and only if the lookup found an address; then all that it found
/// is dialed, from the first on, in the resolver's order. Else the failure is one to resolve.
pub proof fn law_queued(addr: Seq<char>, lookup: Lookup, r: Result<DialQueue, ConnectError>)
    requires
        queued(addr, lookup, r),
    ensures
        r is Ok <==> (lookup matches Lookup::Found(addrs) && addrs@.len() > 0),
        r matches Ok(queue) ==> (lookup matches Lookup::Found(addrs) && queue.addrs@ == addrs@
            && queue.next == 0 && queue.last_error is None),
        r matches Err(e) ==> (e matches ConnectError::Resolve(m) && match lookup {
            Lookup::TimedOut(_) => m@ == "dns lookup for "@ + addr + " timed out"@,
            Lookup::Failed(why) => m == why,
            Lookup::Found(_) => m@ == "no addresses for "@ + addr,
        }),
{
}

/// The addresses to dial for `addr`, one after the other: a queue that is not empty. Or why
/// there are none.
pub fn connect_queue(addr: &str, lookup: Lookup) -> (r: Result<DialQueue, ConnectError>)
    ensures
        queued(addr@, lookup, r),
{
    match lookup {
        Lookup::TimedOut(_) => Err(
            ConnectError::Resolve("dns lookup for ".to_owned().concat(addr).concat(" timed out")),
        ),
        Lookup::Failed(e) => Err(ConnectError::Resolve(e)),
        Lookup::Found(addrs) => if addrs.len() == 0 {
            Err(ConnectError::Resolve("no addresses for ".to_owned().concat(addr)))
        } else {
            Ok(DialQueue { addrs, next: 0, last_error: None })
        },
    }
}

/// Addresses that are dialed one after the other until one connects.
#[derive(Debug)]
pub struct DialQueue {
    /// The addresses, in the order in which they are dialed.
    pub addrs: Vec<SocketAddr>,
    /// How many of them were dialed.
    pub next: usize,
    /// How the last dial failed.
    pub last_error: Option<ConnectError>,
}

impl DialQueue {
    /// A queue of which nothing was dialed.
    pub open spec fn start(addrs: Vec<SocketAddr>) -> DialQueue {
        DialQueue { addrs, next: 0, last_error: None }
    }

    /// The next address to dial, if one is left.
    pub open spec fn upcoming(self) -> Option<SocketAddr> {
        if self.next < self.addrs@.len() {
            Some(self.addrs@[self.next as int])
        } else {
            None
        }
    }

    /// The queue once its next address, if one is left, was taken.
    pub open spec fn taken(self) -> DialQueue {
        match self.upcoming() {
            Some(_) => DialQueue { next: (self.next + 1) as usize, ..self },
            None => self,
        }
    }

    /// The queue once it was noted that the address dialed last did not connect.
    pub open spec fn noted(self, error: ConnectError) -> DialQueue {
        DialQueue { last_error: Some(error), ..self }
    }

    /// The next address to dial, if one is left.
    pub fn next_addr(&mut self) -> (addr: Option<SocketAddr>)
        ensures
            addr == old(self).upcoming(),
            *final(self) == old(self).taken(),
    {
        if self.next < self.addrs.len() {
            let addr: SocketAddr = self.addrs[self.next];
            self.next = self.next + 1;
            Some(addr)
        } else {
            None
        }
    }

    /// Notes that the address dialed last did not connect.
    pub fn failed(&mut self, error: ConnectError)
        ensures
            *final(self) == old(self).noted(error),
    {
        self.last_error = Some(error);
    }

    /// Whether `e` is the error to report once no address is left: that of the last dial.
    pub open spec fn ends_with(self, addr: Seq<char>, e: ConnectError) -> bool {
        match self.last_error {
            Some(last) => e == last,
            None => e matches ConnectError::Resolve(m) && m@ == "no addresses for "@ + addr,
        }
    }

    /// The error to report once no address is left: that of the last dial.
    pub fn into_error(self, addr: &str) -> (e: ConnectError)
        ensures
            self.ends_with(addr@, e),
            match self.last_error {
                Some(last) => e == last,
                None => e matches ConnectError::Resolve(m) && m@ == "no addresses for "@ + addr@,
            },
    {
        match self.last_error {
            Some(last) => last,
            None => ConnectError::Resolve("no addresses for ".to_owned().concat(addr)),
        }
    }
}

/// A queue begins at its first address. Taking an address moves on by one and changes nothing
/// else, and a queue at its end stays there; a failure is kept until the next, and changes
/// nothing else.
pub proof fn law_queue_moves(queue: DialQueue, addrs: Vec<SocketAddr>, e: ConnectError)
    ensures
        DialQueue::start(addrs).addrs == addrs,
        DialQueue::start(addrs).next == 0,
        DialQueue::start(addrs).last_error is None,
        queue.next < queue.addrs@.len() ==> {
            &&& queue.upcoming() == Some(queue.addrs@[queue.next as int])
            &&& queue.next < usize::MAX ==> queue.taken().next == queue.next + 1
        },
        queue.next >= queue.addrs@.len() ==> queue.upcoming() is None && queue.taken() == queue,
        queue.taken().addrs == queue.addrs,
        queue.taken().last_error == queue.last_error,
        queue.noted(e).last_error == Some(e),
        queue.noted(e).addrs == queue.addrs,
        queue.noted(e).next == queue.next,
{
}

/// Once every address was dialed in vain, what is reported is how the last dial failed, and not how
/// an earlier one did.
pub proof fn law_last_error_is_reported(
    addrs: Vec<SocketAddr>,
    errors: Seq<ConnectError>,
    addr: Seq<char>,
    e: ConnectError,
)
    requires
        0 < errors.len() <= addrs@.len() <= usize::MAX,
        queue_after(addrs, errors).ends_with(addr, e),
    ensures
        e == errors[errors.len() - 1],
{
    law_addresses_in_turn(addrs, errors);
}

/// A queue of which as many addresses were dialed as there are `errors`, each of which is how
/// one dial failed.
pub open spec fn queue_after(addrs: Vec<SocketAddr>, errors: Seq<ConnectError>) -> DialQueue
    decreases errors.len(),
{
    if errors.len() == 0 {
        DialQueue::start(addrs)
    } else {
        queue_after(addrs, errors.drop_last()).taken().noted(errors.last())
    }
}

/// Every address is dialed in its turn, once, until one connects: after some failures, the next
/// address is the one with as many others before it, and once none is left, the error to report
/// is that of the last dial.
pub proof fn law_addresses_in_turn(addrs: Vec<SocketAddr>, errors: Seq<ConnectError>)
    requires
        errors.len() <= addrs@.len(),
        addrs@.len() <= usize::MAX,
    ensures
        queue_after(addrs, errors).upcoming() == if errors.len() < addrs@.len() {
            Some(addrs@[errors.len() as int])
        } else {
            None
        },
        queue_after(addrs, errors).last_error == if errors.len() == 0 {
            None
        } else {
            Some(errors.last())
        },
        queue_after(addrs, errors).addrs == addrs,
        queue_after(addrs, errors).next == errors.len(),
    decreases errors.len(),
{
    if errors.len() > 0 {
        law_addresses_in_turn(addrs, errors.drop_last());
    }
}

// ---------------------------------------------------------------------------------------
// Reconnecting
// ---------------------------------------------------------------------------------------
/// Whether dialing again cannot help: the token was refused, a setting is not acceptable, TLS
/// cannot be set up, or the TLS handshake failed.
pub open spec fn terminal(e: ConnectError) -> bool {
    match e {
        ConnectError::Tls(_) => true,
        ConnectError::Config(_) => true,
        ConnectError::Handshake(h) => h is Unauthorized || h is Revoked || h is BadRequest,
        ConnectError::Connection(c) => c.kind == ConnectionErrorKind::TransportError,
        _ => false,
    }
}

/// Reconnection-terminal: token auth failure, a client-side TLS/config error, or a TLS
/// handshake (crypto) failure such as an untrusted server certificate. Transport
/// failures (server down, reset, timeout, refused) are transient and retried with backoff.
pub fn is_terminal(e: &ConnectError) -> (b: bool)
    ensures
        b == terminal(*e),
{
    match e {
        ConnectError::Tls(_) => true,
        ConnectError::Config(_) => true,
        ConnectError::Handshake(h) => match h {
            HandshakeError::Unauthorized | HandshakeError::Revoked | HandshakeError::BadRequest =>
                true,
            _ => false,
        },
        ConnectError::Connection(c) => match c.kind {
            ConnectionErrorKind::TransportError => true,
            _ => false,
        },
        _ => false,
    }
}

/// Twice the backoff `current`, but at most `max`.
pub open spec fn doubled_backoff(current: Duration, max: Duration) -> Duration {
    if 2 * current@ <= max@ {
        Duration::of_nanos(2 * current@)
    } else {
        max
    }
}

/// The backoff that follows `current`: twice as long, but at most `max`.
pub fn next_backoff(current: Duration, max: Duration) -> (next: Duration)
    ensures
        next == doubled_backoff(current, max),
        next@ == if 2 * current@ <= max@ {
            2 * current@
        } else {
            max@
        },
{
    let next = current.saturating_double().min(max);
    proof {
        if 2 * current@ <= max@ {
            crate::duration::lemma_of_nanos(2 * current@);
            crate::duration::lemma_same_length(next, Duration::of_nanos(2 * current@));
        } else {
            crate::duration::lemma_same_length(next, max);
        }
    }
    next
}

/// The length of the wait for a backoff: half of it, and what is drawn at random, but at most the
/// other half.
pub open spec fn jittered(base: nat, extra: nat) -> nat {
    base / 2 + if extra <= base / 2 {
        extra
    } else {
        base / 2
    }
}

/// A wait is never shorter than half the backoff nor longer than the backoff. A longer draw gives
/// no shorter wait, a draw of nothing gives half, and up to half every nanosecond counts.
pub proof fn law_jitter(base: nat, extra: nat, more: nat)
    requires
        extra <= more,
    ensures
        base / 2 <= jittered(base, extra) <= base,
        jittered(base, extra) <= jittered(base, more),
        jittered(base, 0) == base / 2,
        more <= base / 2 ==> jittered(base, more) - jittered(base, extra) == more - extra,
        extra >= base / 2 ==> jittered(base, extra) == 2 * (base / 2),
{
}

/// The wait for a backoff of `base`: half of it, and `extra`, which is drawn at random, but at
/// most the other half.
pub fn apply_jitter(base: Duration, extra: Duration) -> (wait: Duration)
    ensures
        wait@ == jittered(base@, extra@),
        wait@ == base@ / 2 + if extra@ <= base@ / 2 {
            extra@
        } else {
            base@ / 2
        },
        base@ / 2 <= wait@ <= base@,
{
    let half = base.halved();
    half.plus(extra.min(half))
}

/// A run of attempts to re-establish a lost connection.
#[derive(Clone, Copy)]
pub struct Reconnect<'a> {
    /// The session whose connection was lost.
    pub session: &'a Session,
    /// Attempts that have failed.
    pub attempts: u32,
    /// The backoff that follows if the next attempt fails too.
    pub backoff: Duration,
}

/// What to do after an attempt.
#[derive(Debug)]
pub enum ReconnectStep {
    /// Use the connection that the attempt made.
    Connected,
    /// Wait for this backoff, which jitter may cut to half, then dial again.
    Wait(Duration),
    /// Give up.
    GiveUp(SendError),
}

impl<'a> Reconnect<'a> {
    /// A run that has made no attempt.
    pub open spec fn start(session: &'a Session) -> Reconnect<'a> {
        Reconnect { session, attempts: 0, backoff: session.reconnect.initial_backoff }
    }

    /// The run after one more attempt failed for a reason that may pass.
    pub open spec fn after_failure(self) -> Reconnect<'a> {
        Reconnect {
            session: self.session,
            attempts: if self.attempts < u32::MAX {
                (self.attempts + 1) as u32
            } else {
                u32::MAX
            },
            backoff: doubled_backoff(self.backoff, self.session.reconnect.max_backoff),
        }
    }

    /// The run after an attempt with this outcome.
    pub open spec fn next(self, outcome: DialOutcome) -> Reconnect<'a> {
        if self.step(outcome) is Wait {
            self.after_failure()
        } else {
            self
        }
    }

    /// What to do after an attempt with this outcome.
    pub open spec fn step(self, outcome: DialOutcome) -> ReconnectStep {
        match dial_error(outcome) {
            None => ReconnectStep::Connected,
            Some(e) => if terminal(e) {
                ReconnectStep::GiveUp(SendError::Reconnect(e))
            } else {
                let attempts = self.after_failure().attempts;
                match self.session.reconnect.max_attempts {
                    Some(max) if attempts >= max => ReconnectStep::GiveUp(
                        SendError::ReconnectExhausted { attempts, last: Box::new(e) },
                    ),
                    _ => ReconnectStep::Wait(self.backoff),
                }
            },
        }
    }

    /// The run that is begun for a session, unless another caller has replaced the lost connection
    /// already.
    pub open spec fn begun(session: &'a Session, replaced: bool) -> Option<Reconnect<'a>> {
        if replaced {
            None
        } else {
            Some(Reconnect::start(session))
        }
    }

    /// Begins a run, unless another caller has replaced the lost connection already.
    pub fn begin(session: &'a Session, replaced: bool) -> (run: Option<Reconnect<'a>>)
        ensures
            run == Reconnect::begun(session, replaced),
            run == if replaced {
                None
            } else {
                Some(Reconnect::start(session))
            },
    {
        if replaced {
            None
        } else {
            Some(Reconnect { session, attempts: 0, backoff: session.reconnect.initial_backoff })
        }
    }

    /// Takes note of an attempt, and says what to do next.
    pub fn reconnect(&mut self, outcome: DialOutcome) -> (step: ReconnectStep)
        ensures
            step == old(self).step(outcome),
            *final(self) == old(self).next(outcome),
            step is Wait ==> final(self).backoff@ == if 2 * old(self).backoff@ <= old(
                self,
            ).session.reconnect.max_backoff@ {
                2 * old(self).backoff@
            } else {
                old(self).session.reconnect.max_backoff@
            },
    {
        let last = match outcome {
            DialOutcome::Connected => {
                return ReconnectStep::Connected;
            },
            DialOutcome::Failed(e) => if is_terminal(&e) {
                return ReconnectStep::GiveUp(SendError::Reconnect(e));
            } else {
                e
            },
            DialOutcome::Elapsed => ConnectError::Handshake(HandshakeError::Timeout),
        };
        let attempts: u32 = self.attempts.saturating_add(1);
        if let Some(max) = self.session.reconnect.max_attempts {
            if attempts >= max {
                return ReconnectStep::GiveUp(
                    SendError::ReconnectExhausted { attempts, last: Box::new(last) },
                );
            }
        }
        let wait: Duration = self.backoff;
        self.attempts = attempts;
        self.backoff = next_backoff(wait, self.session.reconnect.max_backoff);
        ReconnectStep::Wait(wait)
    }
}

/// `n` doubled `k` times.
pub open spec fn doubled(n: nat, k: nat) -> nat
    decreases k,
{
    if k == 0 {
        n
    } else {
        2 * doubled(n, (k - 1) as nat)
    }
}

/// A run in which `k` attempts failed for reasons that may pass.
pub open spec fn run_after(session: &Session, k: nat) -> Reconnect<'_>
    decreases k,
{
    if k == 0 {
        Reconnect::start(session)
    } else {
        run_after(session, (k - 1) as nat).after_failure()
    }
}

/// Whether an attempt failed for a reason that may pass.
pub open spec fn transient(outcome: DialOutcome) -> bool {
    dial_error(outcome) matches Some(e) && !terminal(e)
}

/// The wait after the `k`th failure (counted from zero) is the initial backoff doubled `k`
/// times, but at most the longest backoff. No wait is shorter than the one before.
pub proof fn law_backoff_schedule(session: &Session, k: nat)
    requires
        session.reconnect.initial_backoff@ <= session.reconnect.max_backoff@
            <= crate::duration::MAX_NANOS,
    ensures
        run_after(session, k).backoff@ == if doubled(session.reconnect.initial_backoff@, k)
            <= session.reconnect.max_backoff@ {
            doubled(session.reconnect.initial_backoff@, k)
        } else {
            session.reconnect.max_backoff@
        },
        session.reconnect.initial_backoff@ <= run_after(session, k).backoff@
            <= session.reconnect.max_backoff@,
        run_after(session, k).backoff@ <= run_after(session, k + 1).backoff@,
        run_after(session, k).session == session,
    decreases k,
{
    if k > 0 {
        law_backoff_schedule(session, (k - 1) as nat);
        lemma_doubled_backoff(
            run_after(session, (k - 1) as nat).backoff,
            session.reconnect.max_backoff,
        );
    }
    assert(run_after(session, k).session == session);
    assert(run_after(session, k + 1) == run_after(session, k).after_failure());
    lemma_doubled_backoff(run_after(session, k).backoff, session.reconnect.max_backoff);
}

proof fn lemma_doubled_backoff(current: Duration, max: Duration)
    requires
        max@ <= crate::duration::MAX_NANOS,
    ensures
        doubled_backoff(current, max)@ == if 2 * current@ <= max@ {
            2 * current@
        } else {
            max@
        },
{
    if 2 * current@ <= max@ {
        crate::duration::lemma_of_nanos(2 * current@);
    }
}

proof fn lemma_run_after(session: &Session, k: nat)
    requires
        k <= u32::MAX,
    ensures
        run_after(session, k).session == session,
        run_after(session, k).attempts == k,
    decreases k,
{
    if k > 0 {
        lemma_run_after(session, (k - 1) as nat);
    }
}

/// With a limit on the attempts, the run waits and dials again after every failure that may
/// pass, until as many have failed as the limit says (one, if it says zero). Then it gives
/// up, with that number and the last error.
pub proof fn law_attempts_are_bounded(session: &Session, outcome: DialOutcome, k: nat)
    requires
        transient(outcome),
        session.reconnect.max_attempts matches Some(max) && k <= max && (k < max || k == 0),
    ensures
        session.reconnect.max_attempts matches Some(max) && if k + 1 < max {
            run_after(session, k).step(outcome) == ReconnectStep::Wait(
                run_after(session, k).backoff,
            )
        } else {
            run_after(session, k).step(outcome) == ReconnectStep::GiveUp(
                SendError::ReconnectExhausted {
                    attempts: (k + 1) as u32,
                    last: Box::new(dial_error(outcome)->0),
                },
            )
        },
{
    lemma_run_after(session, k);
}

/// The waits of a run in which `k` attempts failed, taken together.
pub open spec fn total_wait(session: &Session, k: nat) -> nat
    decreases k,
{
    if k == 0 {
        0
    } else {
        total_wait(session, (k - 1) as nat) + run_after(session, (k - 1) as nat).backoff@
    }
}

/// The waits after `k` failures last `k` times the longest backoff at most.
pub proof fn law_total_wait_is_bounded(session: &Session, k: nat)
    requires
        session.reconnect.initial_backoff@ <= session.reconnect.max_backoff@
            <= crate::duration::MAX_NANOS,
    ensures
        total_wait(session, k) <= k * session.reconnect.max_backoff@,
    decreases k,
{
    let max = session.reconnect.max_backoff@;
    if k > 0 {
        law_total_wait_is_bounded(session, (k - 1) as nat);
        law_backoff_schedule(session, (k - 1) as nat);
        assert(k * max == (k - 1) * max + max) by (nonlinear_arith)
            requires
                k > 0,
        ;
    } else {
        assert(k * max == 0) by (nonlinear_arith)
            requires
                k == 0,
        ;
    }
}

/// A run after attempts with these outcomes.
pub open spec fn run_through<'a>(session: &'a Session, outcomes: Seq<DialOutcome>) -> Reconnect<'a>
    decreases outcomes.len(),
{
    if outcomes.len() == 0 {
        Reconnect::start(session)
    } else {
        run_through(session, outcomes.drop_last()).next(outcomes.last())
    }
}

/// Reconnecting is pinned: whatever comes of the attempts, every one of them is for the same
/// session, and so goes to the same address under the same name, with the same token, and
/// leaves the source of the endpoint as it is. Where the attempts fail for reasons that may
/// pass and are fewer than the limit, another one follows, and if it connects, the run ends
/// with its connection.
pub proof fn law_reconnect_is_pinned(session: &Session, outcomes: Seq<DialOutcome>)
    ensures
        run_through(session, outcomes).session == session,
        (forall|i: int| 0 <= i < outcomes.len() ==> transient(#[trigger] outcomes[i])) && (
        session.reconnect.max_attempts matches Some(max) ==> outcomes.len() < max) ==> {
            &&& run_through(session, outcomes) == run_after(session, outcomes.len())
            &&& run_through(session, outcomes).step(DialOutcome::Connected)
                == ReconnectStep::Connected
            &&& outcomes.len() > 0 ==> run_through(session, outcomes.drop_last()).step(
                outcomes.last(),
            ) == ReconnectStep::Wait(run_through(session, outcomes.drop_last()).backoff)
        },
    decreases outcomes.len(),
{
    if outcomes.len() > 0 {
        let before = outcomes.drop_last();
        law_reconnect_is_pinned(session, before);
        if (forall|i: int| 0 <= i < outcomes.len() ==> transient(#[trigger] outcomes[i])) && (
        session.reconnect.max_attempts matches Some(max) ==> outcomes.len() < max) {
            assert forall|i: int| 0 <= i < before.len() implies transient(#[trigger] before[i]) by {
                assert(transient(outcomes[i]));
            }
            assert(transient(outcomes[outcomes.len() - 1]));
            lemma_run_is_of_session(session, before.len());
            if let Some(max) = session.reconnect.max_attempts {
                lemma_run_after(session, before.len());
            }
        }
    }
}

proof fn lemma_run_is_of_session(session: &Session, k: nat)
    ensures
        run_after(session, k).session == session,
    decreases k,
{
    if k > 0 {
        lemma_run_is_of_session(session, (k - 1) as nat);
    }
}

/// A lost connection is dialed again, for its own session and from the first backoff on, if and
/// only if nobody has replaced it yet.
pub proof fn law_begun(session: &Session, replaced: bool)
    ensures
        Reconnect::begun(session, replaced) is None <==> replaced,
        Reconnect::begun(session, replaced) matches Some(run) ==> run.session == session
            && run.attempts == 0 && run.backoff == session.reconnect.initial_backoff,
{
}

/// How a run moves. It begins with no attempt made and the initial backoff. An attempt that
/// connects ends it, one that took too long counts as a handshake timeout, and one that failed
/// for a reason that may pass is counted; then the run gives up if the limit is reached, or else
/// waits for the backoff, which doubles up to the longest. Nothing else changes.
pub proof fn law_reconnect_moves(session: &Session, run: Reconnect, e: ConnectError)
    requires
        run.attempts < u32::MAX,
        run.session.reconnect.max_backoff@ <= crate::duration::MAX_NANOS,
    ensures
        Reconnect::start(session).session == session,
        Reconnect::start(session).attempts == 0,
        Reconnect::start(session).backoff == session.reconnect.initial_backoff,
        run.step(DialOutcome::Connected) is Connected,
        run.step(DialOutcome::Elapsed) == run.step(
            DialOutcome::Failed(ConnectError::Handshake(HandshakeError::Timeout)),
        ),
        terminal(e) ==> run.step(DialOutcome::Failed(e)) == ReconnectStep::GiveUp(
            SendError::Reconnect(e),
        ),
        !terminal(e) ==> match run.session.reconnect.max_attempts {
            Some(max) if run.attempts + 1 >= max => run.step(DialOutcome::Failed(e))
                == ReconnectStep::GiveUp(
                SendError::ReconnectExhausted {
                    attempts: (run.attempts + 1) as u32,
                    last: Box::new(e),
                },
            ),
            _ => {
                let next = run.next(DialOutcome::Failed(e));
                &&& run.step(DialOutcome::Failed(e)) == ReconnectStep::Wait(run.backoff)
                &&& next.attempts == run.attempts + 1
                &&& next.session == run.session
                &&& next.backoff@ <= run.session.reconnect.max_backoff@
                &&& 2 * run.backoff@ <= run.session.reconnect.max_backoff@ ==> next.backoff@ == 2
                    * run.backoff@
                &&& 2 * run.backoff@ > run.session.reconnect.max_backoff@ ==> next.backoff
                    == run.session.reconnect.max_backoff
            },
        },
        run.next(DialOutcome::Connected) == run,
        run.next(DialOutcome::Elapsed) == run.next(
            DialOutcome::Failed(ConnectError::Handshake(HandshakeError::Timeout)),
        ),
{
    lemma_doubled_backoff(run.backoff, run.session.reconnect.max_backoff);
}

/// Without a limit on the attempts, a run never gives up for a reason that may pass.
pub proof fn law_unlimited_attempts(run: Reconnect, outcome: DialOutcome)
    requires
        run.session.reconnect.max_attempts is None,
        transient(outcome),
    ensures
        run.step(outcome) == ReconnectStep::Wait(run.backoff),
{
}

/// A refused token, and every other failure that dialing again cannot mend, ends a run at
/// once with that failure, however many attempts are left.
pub proof fn law_terminal_failure_surfaces(run: Reconnect, e: ConnectError)
    requires
        terminal(e),
    ensures
        run.step(DialOutcome::Failed(e)) == ReconnectStep::GiveUp(SendError::Reconnect(e)),
{
}

/// Of the codes with which the server may close a connection during the handshake, those for
/// an unauthorized or revoked token and for a bad request end a run; too many connections,
/// and every code without a meaning, do not.
pub proof fn law_close_codes(code: u64)
    ensures
        terminal(ConnectError::Handshake(close_meaning(code))) <==> code == 0x01 || code == 0x02
            || code == 0x04,
        close_meaning(code) is TooManyConnections <==> code == 0x03,
{
}

/// Which failures to connect end a run: a setting that is not acceptable, TLS that cannot be
/// set up, a failed TLS handshake and a refused token do. A name that does not resolve, a dial
/// that cannot be started, a socket that cannot be set up, a connection that ends in any other
/// way, and a handshake without an answer do not.
pub proof fn law_terminal_failures(text: String, c: ConnectionError)
    ensures
        forall|h: HandshakeError| #[trigger]
            terminal(ConnectError::Handshake(h)) <==> h is Unauthorized || h is Revoked
                || h is BadRequest,
        forall|a: crate::error::AutoConfigError| !#[trigger] terminal(ConnectError::AutoConfig(a)),
        terminal(ConnectError::Tls(text)),
        terminal(ConnectError::Config(text)),
        terminal(ConnectError::Connection(c)) <==> c.kind is TransportError,
        !terminal(ConnectError::Resolve(text)),
        !terminal(ConnectError::Dial(text)),
        !terminal(ConnectError::Io(text)),
        !terminal(ConnectError::Handshake(HandshakeError::Timeout)),
        !terminal(ConnectError::Handshake(HandshakeError::Io(text))),
        !terminal(ConnectError::Handshake(HandshakeError::TooManyConnections)),
{
}

// ---------------------------------------------------------------------------------------
// Sending
// ---------------------------------------------------------------------------------------
/// Whether `r` refuses a transaction of this many bytes, with that number, or lets it pass.
pub open spec fn size_checked(len: nat, r: Result<(), SendError>) -> bool {
    if len > MAX_TX_BYTES {
        r matches Err(SendError::TooLarge(n)) && n == len
    } else {
        r is Ok
    }
}

/// A transaction passes if and only if it has at most 1232 bytes, also one of none; any other is
/// refused with the number of its bytes.
pub proof fn law_transaction_size(len: nat, r: Result<(), SendError>)
    requires
        size_checked(len, r),
    ensures
        r is Ok <==> len <= 1232,
        r matches Err(e) ==> (e matches SendError::TooLarge(n) && n == len),
{
}

/// Refuses a transaction that does not fit one packet.
pub fn check_transaction_size(tx_bytes: &[u8]) -> (r: Result<(), SendError>)
    ensures
        size_checked(tx_bytes@.len(), r),
        r == if tx_bytes@.len() > MAX_TX_BYTES {
            Err::<(), _>(SendError::TooLarge(tx_bytes@.len() as usize))
        } else {
            Ok(())
        },
{
    if tx_bytes.len() > MAX_TX_BYTES {
        Err(SendError::TooLarge(tx_bytes.len()))
    } else {
        Ok(())
    }
}

/// What came of writing a transaction to a stream of its own.
#[derive(Debug)]
pub enum SendExchange {
    /// No stream could be opened.
    OpenFailed(ConnectionError),
    /// The transaction could not be written.
    WriteFailed(WriteError),
    /// The stream could not be finished, for this reason.
    FinishFailed(String),
    /// Not done in the time given.
    TimedOut,
    /// The transaction is written and the stream finished: it is queued in the local send
    /// buffer. Nothing is awaited from the server.
    Finished,
}

/// What an exchange means for the transaction. One that was written, and its stream finished,
/// is sent.
pub open spec fn sent(exchange: SendExchange) -> Result<(), SendError> {
    match exchange {
        SendExchange::OpenFailed(e) => Err(SendError::ConnectionLost(e)),
        SendExchange::WriteFailed(e) => Err(SendError::StreamWrite(e)),
        SendExchange::FinishFailed(e) => Err(SendError::StreamClosed(e)),
        SendExchange::TimedOut => Err(SendError::Timeout),
        SendExchange::Finished => Ok(()),
    }
}

/// What an exchange means for the transaction: success as soon as it is queued locally.
pub fn send_on_timed(exchange: SendExchange) -> (r: Result<(), SendError>)
    ensures
        r == sent(exchange),
        r is Ok <==> exchange is Finished,
{
    match exchange {
        SendExchange::OpenFailed(e) => Err(SendError::ConnectionLost(e)),
        SendExchange::WriteFailed(e) => Err(SendError::StreamWrite(e)),
        SendExchange::FinishFailed(e) => Err(SendError::StreamClosed(e)),
        SendExchange::TimedOut => Err(SendError::Timeout),
        SendExchange::Finished => Ok(()),
    }
}

/// Whether a send failed because the connection is lost or stuck.
pub open spec fn connection_failure(e: SendError) -> bool {
    match e {
        SendError::Timeout => true,
        SendError::ConnectionLost(_) => true,
        SendError::StreamWrite(w) => w.kind == WriteErrorKind::ConnectionLost,
        _ => false,
    }
}

/// A send failure that warrants a transparent reconnect + retry: a genuinely lost
/// connection, or a send timeout (which usually means the connection is wedged — a
/// path failure or flow-control stall QUIC has not yet surfaced).
pub fn is_reconnectable_send_error(e: &SendError) -> (b: bool)
    ensures
        b == connection_failure(*e),
{
    match e {
        SendError::Timeout => true,
        SendError::ConnectionLost(_) => true,
        SendError::StreamWrite(w) => match w.kind {
            WriteErrorKind::ConnectionLost => true,
            _ => false,
        },
        _ => false,
    }
}

/// What to do after a send.
#[derive(Debug)]
pub enum SendStep {
    /// Report this to the caller.
    Done(Result<(), SendError>),
    /// Re-establish the connection and send the same bytes once more. A connection that is
    /// stuck, not lost, is closed first.
    Reconnect { close_first: bool },
}

/// What to do after a send, the first one or its replay on a fresh connection.
pub open spec fn send_step(
    policy: ReconnectPolicy,
    replay: bool,
    result: Result<(), SendError>,
) -> SendStep {
    match result {
        Err(e) if !replay && policy.enabled && connection_failure(e) => SendStep::Reconnect {
            close_first: e is Timeout,
        },
        _ => SendStep::Done(result),
    }
}

/// What to do after a send, the first one or its replay on a fresh connection.
pub fn after_send(policy: &ReconnectPolicy, replay: bool, result: Result<(), SendError>) -> (step:
    SendStep)
    ensures
        step == send_step(*policy, replay, result),
{
    if replay || !policy.enabled {
        return SendStep::Done(result);
    }
    let close_first = match &result {
        Err(SendError::Timeout) => true,
        Err(e) => if is_reconnectable_send_error(e) {
            false
        } else {
            return SendStep::Done(result);
        },
        Ok(()) => {
            return SendStep::Done(result);
        },
    };
    SendStep::Reconnect { close_first }
}

/// A transaction that is written, and its stream finished, is sent, and reported at once:
/// nothing that happens to the stream or the connection later reconnects or sends it again.
pub proof fn law_queued_is_sent(policy: ReconnectPolicy, replay: bool, exchange: SendExchange)
    ensures
        sent(exchange) is Ok <==> exchange is Finished,
        exchange is Finished ==> send_step(policy, replay, sent(exchange)) == SendStep::Done(
            Ok(()),
        ),
{
}

/// How a send fails, by what failed: no stream is a lost connection, and each other failure is
/// reported with what it says.
pub proof fn law_send_failures(c: ConnectionError, w: WriteError, text: String)
    ensures
        sent(SendExchange::OpenFailed(c)) == Err::<(), _>(SendError::ConnectionLost(c)),
        sent(SendExchange::WriteFailed(w)) == Err::<(), _>(SendError::StreamWrite(w)),
        sent(SendExchange::FinishFailed(text)) == Err::<(), _>(SendError::StreamClosed(text)),
        sent(SendExchange::TimedOut) == Err::<(), _>(SendError::Timeout),
        sent(SendExchange::Finished) is Ok,
{
}

/// With reconnection enabled, a first send that took too long, that lost the connection before
/// the stream was open, however it was lost, or that could not be written because the connection
/// is gone, is sent again on a fresh connection. Only a connection on which a send took too long
/// is closed for that.
pub proof fn law_lost_connection_is_replayed(
    policy: ReconnectPolicy,
    c: ConnectionError,
    w: WriteError,
)
    requires
        policy.enabled,
    ensures
        send_step(policy, false, Err(SendError::Timeout)) == (SendStep::Reconnect {
            close_first: true,
        }),
        send_step(policy, false, Err(SendError::ConnectionLost(c))) == (SendStep::Reconnect {
            close_first: false,
        }),
        w.kind is ConnectionLost ==> send_step(policy, false, Err(SendError::StreamWrite(w))) == (
        SendStep::Reconnect { close_first: false }),
        send_step(policy, false, sent(SendExchange::TimedOut)) == (SendStep::Reconnect {
            close_first: true,
        }),
        send_step(policy, false, sent(SendExchange::OpenFailed(c))) == (SendStep::Reconnect {
            close_first: false,
        }),
        w.kind is ConnectionLost ==> send_step(policy, false, sent(SendExchange::WriteFailed(w)))
            == (SendStep::Reconnect { close_first: false }),
{
}

/// Every other result of a send is reported as it is: success, a transaction that is too large,
/// a write that failed while the connection stands, a stream that was closed, and a failed
/// reconnect.
pub proof fn law_other_results_are_reported(
    policy: ReconnectPolicy,
    replay: bool,
    result: Result<(), SendError>,
)
    requires
        match result {
            Ok(_) => true,
            Err(SendError::TooLarge(_)) => true,
            Err(SendError::StreamWrite(w)) => w.kind is Stopped || w.kind is ClosedStream
                || w.kind is ZeroRttRejected,
            Err(SendError::StreamClosed(_)) => true,
            Err(SendError::Reconnect(_)) => true,
            Err(SendError::ReconnectExhausted { .. }) => true,
            _ => false,
        },
    ensures
        send_step(policy, replay, result) == SendStep::Done(result),
        result matches Err(e) ==> !connection_failure(e),
{
}

/// The failures that call for a fresh connection are a send that took too long, a connection
/// lost before the stream was open, and a write that failed because the connection is gone.
pub proof fn law_connection_failures(e: SendError)
    ensures
        connection_failure(e) <==> e is Timeout || e is ConnectionLost || (
        e matches SendError::StreamWrite(w) && w.kind is ConnectionLost),
{
}

/// A stream that the server stops while it is written, with whatever code, is reported and
/// nothing else: the connection stays up.
pub proof fn law_stopped_stream_keeps_connection(
    policy: ReconnectPolicy,
    replay: bool,
    e: WriteError,
)
    requires
        e.kind is Stopped,
    ensures
        send_step(policy, replay, sent(SendExchange::WriteFailed(e))) == SendStep::Done(
            Err(SendError::StreamWrite(e)),
        ),
{
}

/// A transaction is sent at most twice: what comes of the replay is reported, whatever it is.
pub proof fn law_one_replay(policy: ReconnectPolicy, result: Result<(), SendError>)
    ensures
        send_step(policy, true, result) == SendStep::Done(result),
{
}

/// With reconnection switched off, what comes of the first send is reported.
pub proof fn law_opt_out(policy: ReconnectPolicy, replay: bool, result: Result<(), SendError>)
    requires
        !policy.enabled,
    ensures
        send_step(policy, replay, result) == SendStep::Done(result),
{
}

/// The limits of the protocol: 750 milliseconds and 16 bytes for the reply to the handshake line,
/// 200 bytes for a token, 1232 bytes for a transaction.
pub proof fn law_protocol_limits()
    ensures
        HANDSHAKE_REPLY_MILLIS == 750,
        HANDSHAKE_REPLY_BYTES == 16,
        MAX_TOKEN_BYTES == 200,
        MAX_TX_BYTES == 1232,
{
}

} // verus!
