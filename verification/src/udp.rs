//! One receive cycle of the UDP listener, as decisions: the caller performs
//! the socket operations and reports what happened; the listener says what
//! to do next.
//!
//! A cycle binds a fresh socket, waits for one datagram that is not empty and
//! delivers its bytes. A failure to bind ends the cycle with an error. A
//! failure to receive is followed by a short wait and another attempt.

use crate::text::{decimal, push_decimal};
use vstd::prelude::*;
use vstd::string::*;

verus! {

/// The size of the receive buffer in bytes. A longer datagram is cut to this
/// length.
pub const BUFFER_SIZE: usize = 4096;

/// The wait after a failure to receive, in milliseconds.
pub const RETRY_DELAY_MS: u64 = 100;

/// The endpoint of one receive cycle.
#[derive(Debug)]
pub struct UdpListener {
    host: String,
    port: u16,
}

/// Why a receive cycle ended without a datagram.
#[derive(Debug)]
pub enum UdpListenerError {
    /// The socket could not be bound: the address, and what the system said.
    BindError(String, String),
}

/// What happened to the socket operation that the listener asked for last.
#[derive(Debug)]
pub enum ListenEvent {
    /// Nothing yet: the cycle begins.
    Started,
    /// The socket is bound.
    Bound,
    /// The socket could not be bound, with what the system said.
    BindFailed(String),
    /// A datagram arrived.
    Received(Vec<u8>),
    /// Receiving failed, with what the system said.
    ReceiveFailed(String),
    /// The wait is over.
    Waited,
}

/// What the caller has to do next.
#[derive(Debug)]
pub enum ListenAction {
    /// Bind a new socket to this address.
    Bind(String),
    /// Wait for one datagram, with a buffer of this many bytes.
    Receive(usize),
    /// Wait this many milliseconds.
    Wait(u64),
    /// The cycle is over: these are the bytes of the datagram.
    Deliver(Vec<u8>),
    /// The cycle is over: it failed.
    Fail(UdpListenerError),
}

/// The text of a socket address: host, a colon, and the port in decimal.
pub open spec fn address_text(host: Seq<char>, port: u16) -> Seq<char> {
    host + seq![':'] + decimal(port as nat)
}

/// The text that describes a failure to bind.
pub open spec fn bind_error_text(address: Seq<char>, cause: Seq<char>) -> Seq<char> {
    "Failed to bind to address "@ + address + ": "@ + cause
}

impl UdpListener {
    /// A listener for the given host and port.
    pub fn new(host: String, port: u16) -> (listener: Self)
        ensures
            listener.host()@ == host@,
            listener.port() == port,
    {
        Self { host, port }
    }

    pub closed spec fn host(&self) -> String {
        self.host
    }

    pub closed spec fn port(&self) -> u16 {
        self.port
    }

    /// The address that the listener binds to.
    pub fn address(&self) -> (address: String)
        ensures
            address@ == address_text(self.host()@, self.port()),
    {
        let mut address = self.host.clone();
        address.push(':');
        push_decimal(&mut address, self.port as usize);
        address
    }

    /// Decides the next step of the cycle from what happened to the last.
    pub fn next_action(&self, event: ListenEvent) -> (action: ListenAction)
        ensures
            match event {
                ListenEvent::Started => action matches ListenAction::Bind(address) && address@
                    == address_text(self.host()@, self.port()),
                ListenEvent::Bound => action == ListenAction::Receive(BUFFER_SIZE),
                ListenEvent::BindFailed(cause) => action matches ListenAction::Fail(
                    UdpListenerError::BindError(address, why),
                ) && address@ == address_text(self.host()@, self.port()) && why@ == cause@,
                ListenEvent::Received(bytes) => if bytes@.len() == 0 {
                    action == ListenAction::Receive(BUFFER_SIZE)
                } else {
                    action matches ListenAction::Deliver(data) && data@ == (if bytes@.len()
                        <= BUFFER_SIZE {
                        bytes@
                    } else {
                        bytes@.take(BUFFER_SIZE as int)
                    })
                },
                ListenEvent::ReceiveFailed(_) => action == ListenAction::Wait(RETRY_DELAY_MS),
                ListenEvent::Waited => action == ListenAction::Receive(BUFFER_SIZE),
            },
    {
        match event {
            ListenEvent::Started => ListenAction::Bind(self.address()),
            ListenEvent::Bound => ListenAction::Receive(BUFFER_SIZE),
            ListenEvent::BindFailed(cause) => ListenAction::Fail(
                UdpListenerError::BindError(self.address(), cause),
            ),
            ListenEvent::Received(bytes) => {
                if bytes.len() == 0 {
                    ListenAction::Receive(BUFFER_SIZE)
                } else {
                    let mut data = bytes;
                    if data.len() > BUFFER_SIZE {
                        data.truncate(BUFFER_SIZE);
                    }
                    ListenAction::Deliver(data)
                }
            },
            ListenEvent::ReceiveFailed(_) => ListenAction::Wait(RETRY_DELAY_MS),
            ListenEvent::Waited => ListenAction::Receive(BUFFER_SIZE),
        }
    }
}

impl UdpListenerError {
    /// The error as a line of text.
    pub fn message(&self) -> (text: String)
        ensures
            match *self {
                UdpListenerError::BindError(address, cause) => text@ == bind_error_text(
                    address@,
                    cause@,
                ),
            },
    {
        match self {
            UdpListenerError::BindError(address, cause) => {
                let mut text = String::from_str("Failed to bind to address ");
                text.append(address.as_str());
                text.append(": ");
                text.append(cause.as_str());
                text
            },
        }
    }
}

} // verus!
