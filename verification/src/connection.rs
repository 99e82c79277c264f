//! Connection settings and the reconnection policy shared by both clients.
use vstd::prelude::*;
use crate::text::{decimal, push_decimal};

verus! {

/// How the phone is reached.
#[derive(Clone, Copy, PartialEq, Eq, PartialOrd, Ord, Debug, Structural)]
pub enum Transport {
    /// Over USB, through an `adb` port forward to the local host.
    Usb,
    /// Over the network.
    Wifi,
}

/// How the audio payload is encoded.
#[derive(Clone, Copy, PartialEq, Eq, PartialOrd, Ord, Debug, Structural)]
pub enum Codec {
    /// Raw 16-bit little-endian PCM.
    Pcm,
    /// Opus frames.
    Opus,
}

/// Number of reconnection attempts after the first failure.
pub const MAX_RETRIES: u32 = 5;

/// What the connection task does after an attempt ended.
#[derive(Clone, Copy, PartialEq, Eq, Debug, Structural)]
pub enum RetryDecision {
    /// The attempt ended cleanly (a disconnect was asked for): stop.
    Finished,
    /// The attempt failed and no retry follows: report the error and stop.
    GiveUp,
    /// The attempt failed: wait, then make retry number `n` (counted from 1).
    Retry(u32),
}

/// Counts failed attempts and decides whether to try again.
pub struct RetryPolicy {
    retry_count: u32,
}

impl RetryPolicy {
    /// No more than [`MAX_RETRIES`] retries are ever made.
    #[verifier::type_invariant]
    spec fn bounded(self) -> bool {
        self.retry_count <= MAX_RETRIES
    }

    /// Number of retries made so far.
    pub closed spec fn retries(&self) -> nat {
        self.retry_count as nat
    }

    /// A policy for a fresh connection task.
    pub fn new() -> (p: Self)
        ensures
            p.retries() == 0,
    {
        RetryPolicy { retry_count: 0 }
    }

    /// Decides after an attempt: a clean end finishes; a failure gives up when a stop was
    /// asked for or [`MAX_RETRIES`] retries were made already, and retries otherwise.
    pub fn on_attempt_end(&mut self, succeeded: bool, stop_requested: bool) -> (d: RetryDecision)
        ensures
            final(self).retries() <= MAX_RETRIES,
            succeeded ==> d == RetryDecision::Finished && final(self).retries() == old(self).retries(),
            !succeeded && (stop_requested || old(self).retries() >= MAX_RETRIES) ==> d == RetryDecision::GiveUp
                && final(self).retries() == old(self).retries(),
            !succeeded && !stop_requested && old(self).retries() < MAX_RETRIES ==> d == RetryDecision::Retry(
                (old(self).retries() + 1) as u32,
            ) && final(self).retries() == old(self).retries() + 1,
    {
        proof {
            use_type_invariant(&*self);
        }
        if succeeded {
            RetryDecision::Finished
        } else if stop_requested || self.retry_count >= MAX_RETRIES {
            RetryDecision::GiveUp
        } else {
            self.retry_count = self.retry_count + 1;
            RetryDecision::Retry(self.retry_count)
        }
    }
}

/// Where the Lampyris client connects.
pub struct ConnectionTarget {
    /// Host to dial, also the name the TLS session is opened for.
    pub host: String,
    /// Port to dial.
    pub port: u16,
}

/// Over USB the phone is reached through the local end of the `adb` forward; otherwise
/// at the address given for it.
pub fn connection_target(is_usb: bool, server_ip: &str, port: u16) -> (t: ConnectionTarget)
    ensures
        t.host@ == if is_usb { "127.0.0.1"@ } else { server_ip@ },
        t.port == port,
{
    let host = if is_usb {
        String::from_str("127.0.0.1")
    } else {
        String::from_str(server_ip)
    };
    ConnectionTarget { host, port }
}


impl ConnectionTarget {
    /// The `host:port` address to dial.
    pub fn address(&self) -> (a: String)
        ensures
            a@ == self.host@ + ":"@ + decimal(self.port as nat),
    {
        let mut a = String::from_str(self.host.as_str());
        a.append(":");
        push_decimal(&mut a, self.port as u64);
        a
    }
}

/// `tcp:` followed by the port number, the form `adb` names a TCP port in.
pub open spec fn adb_tcp(port: u16) -> Seq<char> {
    "tcp:"@ + decimal(port as nat)
}

fn adb_tcp_string(port: u16) -> (s: String)
    ensures
        s@ == adb_tcp(port),
{
    let mut s = String::from_str("tcp:");
    push_decimal(&mut s, port as u64);
    s
}

/// The arguments of the `adb` command that forwards a local TCP port to the same port on
/// the phone.
pub fn adb_forward_args(port: u16) -> (args: Vec<String>)
    ensures
        args@.len() == 3,
        args@[0]@ == "forward"@,
        args@[1]@ == adb_tcp(port),
        args@[2]@ == adb_tcp(port),
{
    let mut args: Vec<String> = Vec::new();
    args.push(String::from_str("forward"));
    args.push(adb_tcp_string(port));
    args.push(adb_tcp_string(port));
    args
}

/// The arguments of the `adb` command that removes the forward of a local TCP port.
pub fn adb_remove_forward_args(port: u16) -> (args: Vec<String>)
    ensures
        args@.len() == 3,
        args@[0]@ == "forward"@,
        args@[1]@ == "--remove"@,
        args@[2]@ == adb_tcp(port),
{
    let mut args: Vec<String> = Vec::new();
    args.push(String::from_str("forward"));
    args.push(String::from_str("--remove"));
    args.push(adb_tcp_string(port));
    args
}

/// The status shown while a connection is made: over USB the client waits for the phone,
/// over the network it names the address it dials.
pub fn connecting_status(is_usb: bool, server_ip: &str) -> (s: String)
    ensures
        s@ == if is_usb { "Waiting for connection..."@ } else { "Connecting to "@ + server_ip@ + "..."@ },
{
    if is_usb {
        String::from_str("Waiting for connection...")
    } else {
        let mut s = String::from_str("Connecting to ");
        s.append(server_ip);
        s.append("...");
        s
    }
}

/// The status shown before retry number `n`.
pub fn retry_status(n: u32) -> (s: String)
    ensures
        s@ == "Retrying ("@ + decimal(n as nat) + ")..."@,
{
    let mut s = String::from_str("Retrying (");
    push_decimal(&mut s, n as u64);
    s.append(")...");
    s
}

} // verus!
