//! Settings of the client.
use crate::duration::{Duration, NANOS_PER_MILLI, NANOS_PER_SEC};
use crate::error::ConnectError;
use crate::tls::trust_anchors;
use std::sync::Arc;
use vstd::prelude::*;

verus! {

/// Settings of a connection.
#[non_exhaustive]
#[derive(Debug, Clone)]
pub struct ClientConfig {
    /// Extra trust roots for tests; `None` = system roots. Chain + hostname validation always runs.
    pub root_store: Option<Arc<rustls::RootCertStore>>,
    /// Connection idle deadline.
    pub idle_timeout: Duration,
    /// Time between keepalives; shorter than `idle_timeout`.
    pub keep_alive_interval: Duration,
    /// What to do when the connection is lost.
    pub reconnect: ReconnectPolicy,
    /// Ceiling on sending one transaction.
    pub send_timeout: Duration,
}

/// Transparent reconnection behavior when sending. `Default` is enabled with a 10s
/// per-attempt connect timeout, 100ms->5s jittered backoff, and a bounded 10 attempts;
/// set `enabled: false` to opt out.
#[non_exhaustive]
#[derive(Debug, Clone, Copy)]
pub struct ReconnectPolicy {
    /// Whether a lost connection is re-established at all.
    pub enabled: bool,
    /// Ceiling on one dial and its handshake.
    pub connect_timeout: Duration,
    /// The first backoff; doubled per attempt.
    pub initial_backoff: Duration,
    /// The longest backoff.
    pub max_backoff: Duration,
    /// How many attempts are made; `None` retries indefinitely.
    pub max_attempts: Option<u32>,
}

impl Default for ClientConfig {
    fn default() -> (config: Self)
        ensures
            config.root_store is None,
            config.idle_timeout@ == 30 * NANOS_PER_SEC,
            config.keep_alive_interval@ == 10 * NANOS_PER_SEC,
            config.reconnect.is_default(),
            config.send_timeout@ == 10 * NANOS_PER_SEC,
    {
        ClientConfig {
            root_store: None,
            idle_timeout: Duration::from_secs(30),
            keep_alive_interval: Duration::from_secs(10),
            reconnect: ReconnectPolicy::default(),
            send_timeout: Duration::from_secs(10),
        }
    }
}

impl ReconnectPolicy {
    /// Enabled, with a 10s connect timeout, a backoff from 100ms to 5s, and 10 attempts.
    pub open spec fn is_default(self) -> bool {
        &&& self.enabled
        &&& self.connect_timeout@ == 10 * NANOS_PER_SEC
        &&& self.initial_backoff@ == 100 * NANOS_PER_MILLI
        &&& self.max_backoff@ == 5 * NANOS_PER_SEC
        &&& self.max_attempts == Some(10u32)
    }
}

impl Default for ReconnectPolicy {
    fn default() -> (policy: Self)
        ensures
            policy.is_default(),
    {
        ReconnectPolicy {
            enabled: true,
            connect_timeout: Duration::from_secs(10),
            initial_backoff: Duration::from_millis(100),
            max_backoff: Duration::from_secs(5),
            max_attempts: Some(10),
        }
    }
}

/// Whether `r` refuses a setting with the words `message`, or accepts where there are none.
pub open spec fn config_verdict(r: Result<(), ConnectError>, message: Option<Seq<char>>) -> bool {
    match message {
        None => r is Ok,
        Some(message) => r matches Err(ConnectError::Config(m)) && m@ == message,
    }
}

impl ClientConfig {
    /// Whether trust roots are given, and there are none among them.
    pub open spec fn overrides_with_no_roots(self) -> bool {
        self.root_store matches Some(roots) && trust_anchors(*roots).len() == 0
    }

    /// What is wrong with the settings: the first that is not acceptable.
    pub open spec fn problem(self) -> Option<Seq<char>> {
        if self.overrides_with_no_roots() {
            Some("root_store override is empty; every handshake would fail"@)
        } else if self.send_timeout@ == 0 {
            Some("send_timeout must be > 0"@)
        } else if self.idle_timeout@ == 0 {
            Some("idle_timeout must be > 0"@)
        } else if self.keep_alive_interval@ == 0 {
            Some("keep_alive_interval must be > 0"@)
        } else if self.keep_alive_interval@ >= self.idle_timeout@ {
            Some(
                "keep_alive_interval must be < idle_timeout (else keepalives never fire before idle)"@,
            )
        } else if self.reconnect.connect_timeout@ == 0 {
            Some("reconnect.connect_timeout must be > 0"@)
        } else if self.reconnect.initial_backoff@ == 0 {
            Some("reconnect.initial_backoff must be > 0"@)
        } else if self.reconnect.max_backoff@ < self.reconnect.initial_backoff@ {
            Some("reconnect.max_backoff must be >= reconnect.initial_backoff"@)
        } else {
            None
        }
    }

    /// Validate operational parameters before dialing.
    pub fn validate(&self) -> (r: Result<(), ConnectError>)
        ensures
            config_verdict(r, self.problem()),
    {
        if let Some(roots) = &self.root_store {
            if roots.is_empty() {
                return Err(
                    ConnectError::Config(
                        "root_store override is empty; every handshake would fail".to_owned(),
                    ),
                );
            }
        }
        if self.send_timeout.is_zero() {
            return Err(ConnectError::Config("send_timeout must be > 0".to_owned()));
        }
        if self.idle_timeout.is_zero() {
            return Err(ConnectError::Config("idle_timeout must be > 0".to_owned()));
        }
        if self.keep_alive_interval.is_zero() {
            return Err(ConnectError::Config("keep_alive_interval must be > 0".to_owned()));
        }
        if !self.keep_alive_interval.shorter_than(self.idle_timeout) {
            return Err(
                ConnectError::Config(
                    "keep_alive_interval must be < idle_timeout (else keepalives never fire before idle)".to_owned(),
                ),
            );
        }
        if self.reconnect.connect_timeout.is_zero() {
            return Err(ConnectError::Config("reconnect.connect_timeout must be > 0".to_owned()));
        }
        if self.reconnect.initial_backoff.is_zero() {
            return Err(ConnectError::Config("reconnect.initial_backoff must be > 0".to_owned()));
        }
        if self.reconnect.max_backoff.shorter_than(self.reconnect.initial_backoff) {
            return Err(
                ConnectError::Config(
                    "reconnect.max_backoff must be >= reconnect.initial_backoff".to_owned(),
                ),
            );
        }
        Ok(())
    }
}

/// The settings that are accepted are those without an empty override of the trust roots,
/// with no span of zero length, with keepalives that come before the idle deadline, and with
/// a backoff that does not shrink.
pub proof fn law_acceptable_settings(config: ClientConfig)
    ensures
        config.problem() is None <==> {
            &&& config.root_store matches Some(roots) ==> trust_anchors(*roots).len() > 0
            &&& config.send_timeout@ > 0
            &&& config.reconnect.connect_timeout@ > 0
            &&& 0 < config.keep_alive_interval@ < config.idle_timeout@
            &&& 0 < config.reconnect.initial_backoff@ <= config.reconnect.max_backoff@
        },
{
}

/// Settings that are refused are refused for the first of these that holds of them, in these
/// words.
pub proof fn law_refused_settings(config: ClientConfig)
    ensures
        ({
            let roots = config.root_store matches Some(roots) ==> trust_anchors(*roots).len() > 0;
            let send = roots && config.send_timeout@ > 0;
            let idle = send && config.idle_timeout@ > 0;
            let alive = idle && config.keep_alive_interval@ > 0;
            let order = alive && config.keep_alive_interval@ < config.idle_timeout@;
            let connect = order && config.reconnect.connect_timeout@ > 0;
            let backoff = connect && config.reconnect.initial_backoff@ > 0;
            &&& !roots ==> config.problem() == Some(
                "root_store override is empty; every handshake would fail"@,
            )
            &&& roots && !send ==> config.problem() == Some("send_timeout must be > 0"@)
            &&& send && !idle ==> config.problem() == Some("idle_timeout must be > 0"@)
            &&& idle && !alive ==> config.problem() == Some("keep_alive_interval must be > 0"@)
            &&& alive && !order ==> config.problem() == Some(
                "keep_alive_interval must be < idle_timeout (else keepalives never fire before idle)"@,
            )
            &&& order && !connect ==> config.problem() == Some(
                "reconnect.connect_timeout must be > 0"@,
            )
            &&& connect && !backoff ==> config.problem() == Some(
                "reconnect.initial_backoff must be > 0"@,
            )
            &&& backoff && config.reconnect.max_backoff@ < config.reconnect.initial_backoff@
                ==> config.problem() == Some(
                "reconnect.max_backoff must be >= reconnect.initial_backoff"@,
            )
        }),
{
}

/// A check succeeds where nothing is wrong, and else fails as a configuration error with just
/// the words that say what is.
pub proof fn law_config_verdict(r: Result<(), ConnectError>, message: Option<Seq<char>>)
    requires
        config_verdict(r, message),
    ensures
        r is Ok <==> message is None,
        r matches Err(e) ==> (e matches ConnectError::Config(m) && message == Some(m@)),
{
}

/// The default policy reconnects, gives an attempt ten seconds, waits from a tenth of a second to
/// five seconds, and gives up after ten attempts.
pub proof fn law_default_policy(policy: ReconnectPolicy)
    requires
        policy.is_default(),
    ensures
        policy.enabled,
        policy.connect_timeout@ == 10_000_000_000,
        policy.initial_backoff@ == 100_000_000,
        policy.max_backoff@ == 5_000_000_000,
        policy.max_attempts == Some(10u32),
{
}

} // verus!
