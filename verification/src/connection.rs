//! Decisions of a client connection: greeting, reading commands from the
//! control channel, and how a passive data connection is set up.
use vstd::prelude::*;
use crate::reply::Reply;
use crate::reply_code::ReplyCode;
use crate::session::ProtMode;

verus! {

/// The greeting sent when a client connects.
pub fn hello_reply() -> (r: Reply)
    ensures
        r@ == (ReplyCode::ServiceReady, seq!["Hello"@]),
{
    Reply::new(ReplyCode::ServiceReady, "Hello")
}

/// What to do after reading from the control channel.
#[derive(Clone, Copy, Debug, PartialEq, Eq, Structural)]
pub enum ControlStep {
    /// A line arrived: evaluate it as a command.
    Evaluate,
    /// The channel closed or failed: stop the command loop and clean up.
    Stop,
}

/// The step after a read of the control channel that gave `bytes` bytes, or
/// failed (`None`): an empty read means the client closed the connection.
pub fn control_read_step(bytes: Option<usize>) -> (s: ControlStep)
    ensures
        s == (if bytes matches Some(n) && n > 0 { ControlStep::Evaluate } else { ControlStep::Stop }),
{
    match bytes {
        Some(n) => if n > 0 { ControlStep::Evaluate } else { ControlStep::Stop },
        None => ControlStep::Stop,
    }
}

/// How many running command tasks a TCP connection keeps before it drops the
/// finished ones.
pub const MAX_RUNNING_COMMANDS: usize = 10;

/// Whether the finished command tasks are dropped after a new one started.
pub fn prune_finished(running: usize) -> (b: bool)
    ensures
        b == (running > MAX_RUNNING_COMMANDS),
{
    running > MAX_RUNNING_COMMANDS
}

/// How an accepted passive data connection is set up.
#[derive(Clone, Copy, Debug, PartialEq, Eq, Structural)]
pub enum ChannelPlan {
    /// Run a TLS handshake and use the encrypted stream.
    Tls,
    /// Use the plain TCP stream.
    Plain,
    /// Shut the connection down: private protection without TLS.
    Refuse,
}

/// The setup of a passive data connection under a protection level: private
/// protection needs TLS, every other level uses the plain stream.
pub fn data_channel_plan(prot_mode: ProtMode, tls_available: bool) -> (p: ChannelPlan)
    ensures
        prot_mode == ProtMode::Private && tls_available ==> p == ChannelPlan::Tls,
        prot_mode == ProtMode::Private && !tls_available ==> p == ChannelPlan::Refuse,
        prot_mode != ProtMode::Private ==> p == ChannelPlan::Plain,
{
    match prot_mode {
        ProtMode::Private => if tls_available { ChannelPlan::Tls } else { ChannelPlan::Refuse },
        ProtMode::Clear | ProtMode::Confidential | ProtMode::Safe => ChannelPlan::Plain,
    }
}

} // verus!
