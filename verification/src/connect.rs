//! Errors of opening the connection: which step failed, and with what.

use vstd::prelude::*;
use vstd::string::StringExecFns;
use crate::error::{map_io_to_socket_err, socket_error, Error};
use crate::text::{debug_str, str_debug};

verus! {

/// A step of opening the connection in which the transport can fail.
pub enum ConnectStep<'a> {
    /// Creating the socket.
    OpenSocket,
    /// Switching off the delay that coalesces small writes.
    SetNoDelay,
    /// Binding the socket to the address of a local interface.
    Bind { interface: &'a str },
    /// Connecting to the destination.
    Connect { host: &'a str, port: &'a str },
}

impl<'a> ConnectStep<'a> {
    /// The first words of the error for a failure in this step. A host
    /// is shown as `{:?}` prints it; the destination is shown as host and
    /// port with a colon between.
    pub open spec fn prefix(self) -> Seq<char> {
        match self {
            ConnectStep::OpenSocket => "Could not open TCP socket: "@,
            ConnectStep::SetNoDelay => "Could not set TCP_NODELAY: "@,
            ConnectStep::Bind { interface } => "Could not bind to interface address "@
                + debug_str(interface@) + ": "@,
            ConnectStep::Connect { host, port } => "Could not connect to "@ + debug_str(
                host@ + ":"@ + port@,
            ) + ": "@,
        }
    }
}

/// The error for a failure of `step`, where `io_err` is what the
/// transport reported.
pub fn connect_error(step: ConnectStep<'_>, io_err: &str) -> (e: Error)
    ensures
        e@ == socket_error(step.prefix(), io_err@),
{
    let mut prefix = String::new();
    match step {
        ConnectStep::OpenSocket => {
            prefix.append("Could not open TCP socket: ");
        },
        ConnectStep::SetNoDelay => {
            prefix.append("Could not set TCP_NODELAY: ");
        },
        ConnectStep::Bind { interface } => {
            let quoted = str_debug(interface);
            prefix.append("Could not bind to interface address ");
            prefix.append(quoted.as_str());
            prefix.append(": ");
        },
        ConnectStep::Connect { host, port } => {
            let mut host_port = String::new();
            host_port.append(host);
            host_port.append(":");
            host_port.append(port);
            let quoted = str_debug(host_port.as_str());
            prefix.append("Could not connect to ");
            prefix.append(quoted.as_str());
            prefix.append(": ");
        },
    }
    map_io_to_socket_err(prefix.as_str(), io_err)
}

} // verus!
