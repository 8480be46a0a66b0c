//! The pool of connections: how large it is, how long a connection is kept,
//! and what is reported when a connection cannot be had or has gone bad.

use vstd::prelude::*;
use crate::ssh::error::SshError;
use crate::text::concat2;

verus! {

/// Seconds to wait for a connection to be made.
pub const CONNECT_TIMEOUT_SECS: u64 = 10;

/// Seconds to wait for the probe of a connection.
pub const HEALTH_CHECK_TIMEOUT_SECS: u64 = 5;

/// Seconds after which a connection that lies idle is closed.
pub const IDLE_TIMEOUT_SECS: u64 = 300;

/// Seconds after which a connection is closed, however busy it was.
pub const MAX_LIFETIME_SECS: u64 = 3600;

/// How the pool is set up.
#[derive(Debug, Clone, Copy, PartialEq, Eq, Structural)]
pub struct PoolSettings {
    /// The greatest number of connections.
    pub max_size: u32,
    /// Seconds to wait for a connection of the pool.
    pub connection_timeout_secs: u64,
    /// Seconds after which an idle connection is closed.
    pub idle_timeout_secs: u64,
    /// Seconds after which any connection is closed.
    pub max_lifetime_secs: u64,
}

/// The settings of a pool of the given size: ten seconds to get a
/// connection, five minutes of idleness, one hour of life.
pub fn pool_settings(max_size: u32) -> (settings: PoolSettings)
    ensures
        settings == (PoolSettings {
            max_size,
            connection_timeout_secs: 10,
            idle_timeout_secs: 300,
            max_lifetime_secs: 3600,
        }),
{
    PoolSettings {
        max_size,
        connection_timeout_secs: CONNECT_TIMEOUT_SECS,
        idle_timeout_secs: IDLE_TIMEOUT_SECS,
        max_lifetime_secs: MAX_LIFETIME_SECS,
    }
}

/// How a session is set up.
#[derive(Debug, Clone, Copy, PartialEq, Eq, Structural)]
pub struct ClientSettings {
    /// Seconds of silence after which the session is given up.
    pub inactivity_timeout_secs: u64,
    /// Seconds between two signs of life.
    pub keepalive_interval_secs: u64,
    /// Bytes that may be under way on a channel.
    pub window_size: u32,
    /// The greatest size of a packet, in bytes.
    pub maximum_packet_size: u32,
    /// Messages that a channel buffers.
    pub channel_buffer_size: usize,
    /// Whether small packets are sent at once.
    pub nodelay: bool,
}

/// The settings of the sessions of the pool.
pub fn client_settings() -> (settings: ClientSettings)
    ensures
        settings == (ClientSettings {
            inactivity_timeout_secs: 300,
            keepalive_interval_secs: 30,
            window_size: 2_097_152,
            maximum_packet_size: 32_768,
            channel_buffer_size: 100,
            nodelay: true,
        }),
{
    ClientSettings {
        inactivity_timeout_secs: 300,
        keepalive_interval_secs: 30,
        window_size: 2_097_152,
        maximum_packet_size: 32_768,
        channel_buffer_size: 100,
        nodelay: true,
    }
}

/// How the probe of a pooled connection went.
#[derive(Debug, Clone)]
pub enum Probe {
    /// A channel could be opened.
    Passed,
    /// Opening a channel failed, with this message.
    Failed(String),
    /// Opening a channel took too long.
    TimedOut,
}

/// Whether a probed connection is used again. One that passed is; one that
/// failed or took too long is not, and the error says why.
pub fn judge_probe(probe: &Probe) -> (r: Result<(), SshError>)
    ensures
        match probe {
            Probe::Passed => r is Ok,
            Probe::Failed(reason) => r is Err && (r->Err_0 matches SshError::Other {
                context,
                source,
            } && context@ == "Health check failed: "@ + reason@ && source is None),
            Probe::TimedOut => r is Err && (r->Err_0 matches SshError::Timeout {
                operation,
                duration_secs,
            } && operation@ == "Health check"@ && duration_secs == 5),
        },
{
    match probe {
        Probe::Passed => Ok(()),
        Probe::Failed(reason) => Err(
            SshError::other(concat2("Health check failed: ", reason.as_str()).as_str()),
        ),
        Probe::TimedOut => Err(SshError::timeout("Health check", HEALTH_CHECK_TIMEOUT_SECS)),
    }
}

/// The error of a connection that was not made in time.
pub fn connect_timeout_error() -> (e: SshError)
    ensures
        e matches SshError::Timeout { operation, duration_secs } && operation@
            == "SSH connection"@ && duration_secs == 10,
{
    SshError::timeout("SSH connection", CONNECT_TIMEOUT_SECS)
}

/// The error of a pool that could not be set up.
pub fn pool_create_error(reason: &str) -> (e: SshError)
    ensures
        e matches SshError::PoolError { reason: r } && r@ == "Failed to create pool: "@ + reason@,
{
    SshError::PoolError { reason: concat2("Failed to create pool: ", reason) }
}

/// The error of a pool that gave no connection.
pub fn pool_get_error(reason: &str) -> (e: SshError)
    ensures
        e matches SshError::PoolError { reason: r } && r@
            == "Failed to get connection from pool: "@ + reason@,
{
    SshError::PoolError { reason: concat2("Failed to get connection from pool: ", reason) }
}

} // verus!
