//! The serving loop: what it does after each return of `accept`, and the
//! reply that a scrape gets.

use vstd::prelude::*;
use vstd::string::*;
use vstd::utf8::is_ascii_chars;
use crate::text::{decimal, push_decimal};

verus! {

/// The port on which the exporter listens where none is given.
pub const DEFAULT_PORT: u32 = 7878;

/// The address on which the exporter listens: the loopback interface and
/// the port.
pub open spec fn listen_address_text(port: u32) -> Seq<char> {
    "127.0.0.1:"@ + decimal(port as nat)
}

/// The address on which the exporter listens.
pub fn listen_address(port: u32) -> (out: String)
    ensures
        out@ == listen_address_text(port),
{
    let mut out = String::from_str("127.0.0.1:");
    push_decimal(&mut out, port as u64);
    out
}

/// Status line and headers of every reply, up to the value of
/// `Content-Length`.
pub open spec fn response_head() -> Seq<char> {
    "HTTP/1.1 200 OK\r\nContent-Type: text/plain; version=0.0.4;\r\nContent-Length: "@
}

/// The reply to a scrape: status line, content type, the length of the body
/// in bytes, an empty line, the body.
pub open spec fn http_response_text(body: Seq<char>, byte_len: nat) -> Seq<char> {
    response_head() + decimal(byte_len) + "\r\n\r\n"@ + body
}

/// Frames a body as the reply to a scrape. `Content-Length` is the length
/// of the body in bytes, which for an ASCII body is its number of
/// characters.
pub fn http_response(body: &str) -> (out: String)
    ensures
        out@ == http_response_text(body@, body.spec_bytes().len()),
        is_ascii_chars(body@) ==> out@ == http_response_text(body@, body@.len()),
{
    broadcast use vstd::string::is_ascii_spec_bytes;

    let mut out = String::from_str(
        "HTTP/1.1 200 OK\r\nContent-Type: text/plain; version=0.0.4;\r\nContent-Length: ",
    );
    let n: usize = body.as_bytes().len();
    push_decimal(&mut out, n as u64);
    out.append("\r\n\r\n");
    out.append(body);
    proof {
        assert(n == body.spec_bytes().len());
        assert(out@ =~= http_response_text(body@, body.spec_bytes().len()));
        if is_ascii_chars(body@) {
            assert(is_ascii(body));
            assert(body.spec_bytes().len() == body@.len());
        }
    }
    out
}

/// Where the serving loop stands.
#[derive(Clone, Copy, Debug, PartialEq, Eq, Structural)]
pub enum ServerState {
    /// Blocked in `accept`, or about to be.
    Listening,
    /// Answering the connection that `accept` returned.
    Handling,
    /// The loop has ended.
    Terminated,
}

/// What happened since the last step.
#[derive(Clone, Copy, Debug, PartialEq, Eq, Structural)]
pub enum ServerEvent {
    /// `accept` returned a connection.
    Connection,
    /// `accept` returned an error.
    AcceptError,
    /// The connection was answered and closed.
    Handled,
    /// Reading from or writing to the connection failed; it was dropped.
    ConnectionFailed,
}

impl ServerState {
    /// The state after an event, `shutdown` being the value of the shutdown
    /// flag read after the event. A listening loop that finds the flag set
    /// ends, whatever `accept` returned; else it answers a connection and
    /// goes on listening after an error. What happens to one connection
    /// never ends the loop.
    pub open spec fn next(self, event: ServerEvent, shutdown: bool) -> ServerState {
        match self {
            ServerState::Terminated => ServerState::Terminated,
            ServerState::Handling => ServerState::Listening,
            ServerState::Listening => if shutdown {
                ServerState::Terminated
            } else if event == ServerEvent::Connection {
                ServerState::Handling
            } else {
                ServerState::Listening
            },
        }
    }

    /// Takes one step of the loop.
    pub fn step(self, event: ServerEvent, shutdown: bool) -> (out: ServerState)
        ensures
            out == self.next(event, shutdown),
            shutdown ==> out != ServerState::Handling,
            self == ServerState::Listening && shutdown ==> out == ServerState::Terminated,
            self == ServerState::Terminated ==> out == ServerState::Terminated,
            out == ServerState::Terminated ==> self == ServerState::Terminated || shutdown,
    {
        match self {
            ServerState::Terminated => ServerState::Terminated,
            ServerState::Handling => ServerState::Listening,
            ServerState::Listening => {
                if shutdown {
                    ServerState::Terminated
                } else {
                    match event {
                        ServerEvent::Connection => ServerState::Handling,
                        _ => ServerState::Listening,
                    }
                }
            },
        }
    }

    /// The state after a run of events, each with the value of the shutdown
    /// flag read after it.
    pub open spec fn run(self, events: Seq<(ServerEvent, bool)>) -> ServerState
        decreases events.len(),
    {
        if events.len() == 0 {
            self
        } else {
            self.run(events.drop_last()).next(events.last().0, events.last().1)
        }
    }
}

/// Whether the flag, once set, stays set over a run of events.
pub open spec fn flag_stays_set(events: Seq<(ServerEvent, bool)>) -> bool {
    forall|i: int, j: int|
        0 <= i <= j < events.len() && (#[trigger] events[i]).1 ==> (#[trigger] events[j]).1
}

/// Shutdown: once the flag is set, the loop takes up no further connection,
/// and it has ended as soon as it has listened once more.
pub proof fn lemma_shutdown_ends_loop(start: ServerState, events: Seq<(ServerEvent, bool)>, i: int)
    requires
        flag_stays_set(events),
        0 <= i < events.len(),
        events[i].1,
    ensures
        forall|n: int|
            i < n <= events.len() ==> #[trigger] start.run(events.take(n))
                != ServerState::Handling,
        forall|n: int|
            i + 2 <= n <= events.len() ==> #[trigger] start.run(events.take(n))
                == ServerState::Terminated,
{
    assert forall|n: int| i < n <= events.len() implies #[trigger] start.run(events.take(n))
        != ServerState::Handling by {
        let prefix = events.take(n);
        assert(prefix.last() == events[n - 1]);
        assert(events[n - 1].1);
    }
    assert forall|n: int| i + 2 <= n <= events.len() implies #[trigger] start.run(events.take(n))
        == ServerState::Terminated by {
        let prefix = events.take(n);
        let before = prefix.drop_last();
        assert(prefix.last() == events[n - 1]);
        assert(events[n - 1].1);
        assert(before.last() == events[n - 2]);
        assert(events[n - 2].1);
        let earlier = start.run(before.drop_last());
        assert(start.run(before) == earlier.next(events[n - 2].0, true));
        assert(start.run(before) != ServerState::Handling);
    }
}

} // verus!
