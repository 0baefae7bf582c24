//! The verdict of a UDP port probe.

use crate::text::{decimal, push_decimal};
use vstd::prelude::*;

verus! {

/// How long the probe waits for a reply, in seconds.
pub const PROBE_TIMEOUT_SECS: u64 = 2;

/// The probe datagram: the five bytes of the text `probe`.
pub fn probe_payload() -> (payload: Vec<u8>)
    ensures
        payload@ == seq!['p' as u8, 'r' as u8, 'o' as u8, 'b' as u8, 'e' as u8],
{
    vec![112u8, 114, 111, 98, 101]
}

/// How a probe of a UDP port ended.
#[derive(Clone, Copy, Debug, PartialEq, Eq, Structural)]
pub enum ProbeOutcome {
    /// No local socket could be bound.
    BindFailed,
    /// The probe datagram could not be sent.
    SendFailed,
    /// A reply came back before the timeout.
    Responded,
    /// Receiving the reply failed.
    ReceiveFailed,
    /// No reply came before the timeout.
    TimedOut,
}

/// The address `target:port` to which the probe is sent.
pub fn probe_address(target: &str, port: u16) -> (addr: String)
    ensures
        addr@ == target@ + seq![':'] + decimal(port as nat),
{
    let mut addr = String::from_str(target);
    proof {
        reveal_strlit(":");
    }
    addr.append(":");
    push_decimal(&mut addr, port as u64);
    addr
}

/// Whether a probe that ended with `outcome` finds the port open: only a
/// reply counts; a timeout, like every failure, does not.
pub fn port_reported_open(outcome: ProbeOutcome) -> (open: bool)
    ensures
        open <==> outcome == ProbeOutcome::Responded,
{
    match outcome {
        ProbeOutcome::Responded => true,
        _ => false,
    }
}

} // verus!
