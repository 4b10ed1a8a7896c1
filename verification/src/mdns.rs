//! The query sender and response listener of a discovery session.
//!
//! The sender builds one PTR question for the service name; the listener
//! decodes each received datagram and determines, per receive outcome, what
//! the session's output sequence carries. Transmitting and receiving the
//! datagrams themselves is the runtime layer's job.

use vstd::prelude::*;
use vstd::string::StrSliceExecFns;

use crate::errors::Error;
use crate::net::IpAddress;
use crate::net::Ipv4Address;
use crate::net::ServiceAddress;
use crate::response::Response;
use crate::response::response_of_packet;
use crate::wire::packet_model;
use crate::wire::parse_packet;

verus! {

/// The mDNS multicast group port.
pub const MULTICAST_PORT: u16 = 5353;

/// The receive buffer size for one datagram, in bytes. A payload larger than
/// this is a per-read resource-exhaustion error, not fatal to the session.
pub const DEFAULT_BUFFER_SIZE: usize = 4096;

/// The mDNS multicast group: 224.0.0.251 on the mDNS port.
pub fn multicast_destination() -> (r: ServiceAddress)
    ensures
        r.ip matches IpAddress::V4(a) && a.octets@ == seq![224u8, 0u8, 0u8, 251u8],
        r.port == MULTICAST_PORT,
{
    ServiceAddress { ip: IpAddress::V4(Ipv4Address::new(224, 0, 0, 251)), port: MULTICAST_PORT }
}

// ---------------------------------------------------------------------------
// Service-name validity: what the query builder accepts
// ---------------------------------------------------------------------------

/// Whether the 63-character window of `s` starting at `p` holds a dot.
pub open spec fn window_has_dot(s: Seq<char>, p: int) -> bool {
    exists|q: int| p <= q < p + 63 && s[q] == '.'
}

/// Whether the query builder accepts a name without panicking: every
/// character ASCII and every dot-separated label shorter than 63 characters.
/// A label of 63 characters or more shows up as a 63-character window
/// without a dot.
pub open spec fn valid_dns_name(s: Seq<char>) -> bool {
    &&& forall|k: int| 0 <= k < s.len() ==> (s[k] as u32) < 128
    &&& forall|p: int| 0 <= p && p + 63 <= s.len() ==> #[trigger] window_has_dot(s, p)
}

/// Checks whether the query builder accepts `name`.
pub fn check_service_name(name: &str) -> (r: bool)
    ensures
        r == valid_dns_name(name@),
{
    let n = name.unicode_len();
    let mut start: usize = 0;
    let mut i: usize = 0;
    while i < n
        invariant
            start <= i <= n,
            n == name@.len(),
            i - start < 63,
            start == 0 || name@[start - 1] == '.',
            forall|k: int| 0 <= k < i ==> (name@[k] as u32) < 128,
            forall|q: int| start <= q < i ==> name@[q] != '.',
            forall|p: int| 0 <= p && p + 63 <= i ==> #[trigger] window_has_dot(name@, p),
        decreases n - i,
    {
        let c = name.get_char(i);
        if (c as u32) >= 128 {
            proof {
                assert(0 <= i < name@.len() && !((name@[i as int] as u32) < 128));
            }
            return false;
        }
        if c == '.' {
            start = i + 1;
            i += 1;
            proof {
                assert forall|p: int|
                    0 <= p && p + 63 <= i implies #[trigger] window_has_dot(name@, p) by {
                    if p + 63 == i {
                        assert(name@[i - 1] == '.');
                        assert(p <= i - 1 < p + 63);
                    }
                }
            }
        } else {
            if i + 1 - start >= 63 {
                proof {
                    assert(name@[i as int] != '.');
                    assert(start + 63 <= name@.len());
                    assert(forall|q: int| start <= q < start + 63 ==> name@[q] != '.');
                    assert(!window_has_dot(name@, start as int));
                }
                return false;
            }
            i += 1;
            proof {
                assert forall|p: int|
                    0 <= p && p + 63 <= i implies #[trigger] window_has_dot(name@, p) by {
                    if p + 63 == i {
                        assert(p < start);
                        assert(start >= 1);
                        assert(name@[start - 1] == '.');
                        assert(p <= start - 1 < p + 63);
                    }
                }
            }
        }
    }
    true
}

// ---------------------------------------------------------------------------
// The query sender
// ---------------------------------------------------------------------------

/// The bytes of the PTR query for a service name: transaction id 0, recursion
/// and unicast-response bits unset, exactly one question of type PTR, class
/// IN. The encoding is the DNS codec's.
pub uninterp spec fn ptr_query_of(name: Seq<char>) -> Seq<u8>;

/// Relies on `dns_parser::Builder` (`new_query`, `add_question`, `build`):
/// builds the one-question PTR/IN query with transaction id 0 and the
/// recursion and unicast-response bits unset; `build` hands the packet back
/// even when it had to mark it truncated, so the call never fails.
/// `add_question` asserts that every dot-separated label of the name is
/// shorter than 63 bytes, which the precondition guarantees.
#[verifier::external_body]
fn build_ptr_query(name: &str) -> (r: Vec<u8>)
    requires
        valid_dns_name(name@),
    ensures
        r@ == ptr_query_of(name@),
{
    let mut builder = dns_parser::Builder::new_query(0, false);
    builder.add_question(name, false, dns_parser::QueryType::PTR, dns_parser::QueryClass::IN);
    builder.build().unwrap_or_else(|data| data)
}

/// The query sender of a discovery session. It builds the PTR question for
/// its service name; the runtime layer transmits the bytes to the multicast
/// group over the shared socket.
#[allow(non_camel_case_types)]
#[derive(Clone, Debug, PartialEq, Eq)]
pub struct mDNSSender {
    pub service_name: String,
}

impl mDNSSender {
    /// The PTR query datagram for the configured service name. The underlying
    /// builder panics on a name with an over-long label, so validity is
    /// required here; [`mDNSSender::try_build_query`] checks it instead.
    pub fn build_query(&self) -> (r: Vec<u8>)
        requires
            valid_dns_name(self.service_name@),
        ensures
            r@ == ptr_query_of(self.service_name@),
    {
        build_ptr_query(self.service_name.as_str())
    }

    /// Builds the PTR query datagram after checking the service name, which
    /// spares the caller the validity precondition: `None` exactly when the
    /// name holds a non-ASCII character or a label of 63 characters or more.
    pub fn try_build_query(&self) -> (r: Option<Vec<u8>>)
        ensures
            match r {
                Some(bytes) => valid_dns_name(self.service_name@) && bytes@ == ptr_query_of(
                    self.service_name@,
                ),
                None => !valid_dns_name(self.service_name@),
            },
    {
        if check_service_name(self.service_name.as_str()) {
            Some(build_ptr_query(self.service_name.as_str()))
        } else {
            None
        }
    }
}

// ---------------------------------------------------------------------------
// The response listener
// ---------------------------------------------------------------------------

/// The response listener of a discovery session. It exclusively owns one
/// receive buffer; the runtime layer reads each datagram into that buffer and
/// hands the byte count to [`mDNSListener::handle_datagram`].
#[allow(non_camel_case_types)]
#[derive(Clone, Debug, PartialEq, Eq)]
pub struct mDNSListener {
    pub recv_buffer: Vec<u8>,
}

/// What the listener yields for one decode outcome: the typed response when
/// the codec accepted the datagram, nothing when it rejected it — a decode
/// failure never ends the sequence, the datagram is merely discarded.
pub fn response_of_parse(pr: Result<dns_parser::Packet, String>) -> (r: Option<Response>)
    ensures
        (pr matches Ok(p) ==> r matches Some(resp) && resp@ == response_of_packet(
            packet_model(p),
        )),
        (pr matches Err(_) ==> r is None),
{
    match pr {
        Ok(p) => Some(Response::from_packet(&p)),
        Err(_) => None,
    }
}

impl mDNSListener {
    /// Handles one received datagram of `count` bytes sitting at the start of
    /// the receive buffer: nothing for a zero-byte read, the decoded response
    /// when the codec accepts the bytes, nothing when it rejects them.
    pub fn handle_datagram(&self, count: usize) -> (r: Option<Response>)
        requires
            count <= self.recv_buffer@.len(),
        ensures
            count == 0 ==> r is None,
            count > 0 ==> (match crate::wire::parsed_message_of(
                self.recv_buffer@.take(count as int),
            ) {
                Some(m) => r matches Some(resp) && resp@ == response_of_packet(m),
                None => r is None,
            }),
    {
        if count == 0 {
            return None;
        }
        let data = vstd::slice::slice_subrange(self.recv_buffer.as_slice(), 0, count);
        proof {
            assert(data@ =~= self.recv_buffer@.take(count as int));
        }
        response_of_parse(parse_packet(data))
    }
}

/// The sender/listener pair of one discovery session, sharing one service
/// name. The runtime layer pairs them with a socket bound to the mDNS port
/// and joined to the multicast group, loopback disabled, non-blocking.
pub fn mdns_interface(service_name: String) -> (r: (mDNSListener, mDNSSender))
    ensures
        r.0.recv_buffer@.len() == DEFAULT_BUFFER_SIZE,
        forall|k: int| 0 <= k < r.0.recv_buffer@.len() ==> r.0.recv_buffer@[k] == 0u8,
        r.1.service_name == service_name,
{
    let mut recv_buffer: Vec<u8> = Vec::new();
    let mut i: usize = 0;
    while i < DEFAULT_BUFFER_SIZE
        invariant
            i <= DEFAULT_BUFFER_SIZE,
            recv_buffer@.len() == i,
            forall|k: int| 0 <= k < i ==> recv_buffer@[k] == 0u8,
        decreases DEFAULT_BUFFER_SIZE - i,
    {
        recv_buffer.push(0);
        i += 1;
    }
    (mDNSListener { recv_buffer }, mDNSSender { service_name })
}

/// Copies one received payload into the caller's buffer when it fits:
/// `Some(n)` leaves the payload in the first `n` bytes and the rest of the
/// buffer untouched; `None` reports a payload larger than the buffer — a
/// resource-exhaustion failure of that read alone, the buffer unchanged.
pub fn fill_buffer(buf: &mut Vec<u8>, data: &Vec<u8>) -> (r: Option<usize>)
    ensures
        match r {
            Some(n) => n == data@.len() && data@.len() <= old(buf)@.len() && final(buf)@ == data@
                + old(buf)@.skip(data@.len() as int),
            None => data@.len() > old(buf)@.len() && final(buf)@ == old(buf)@,
        },
{
    if data.len() > buf.len() {
        return None;
    }
    let n = data.len();
    let mut i: usize = 0;
    while i < n
        invariant
            i <= n,
            n == data@.len(),
            n <= buf@.len(),
            buf@.len() == old(buf)@.len(),
            forall|k: int| 0 <= k < i ==> buf@[k] == data@[k],
            forall|k: int| i <= k < buf@.len() ==> buf@[k] == old(buf)@[k],
        decreases n - i,
    {
        buf[i] = data[i];
        i += 1;
    }
    proof {
        assert(buf@ =~= data@ + old(buf)@.skip(data@.len() as int));
    }
    Some(n)
}

// ---------------------------------------------------------------------------
// The listener's output sequence
// ---------------------------------------------------------------------------

/// One observation of the receive loop, after decoding.
#[derive(Clone, Debug, PartialEq, Eq)]
pub enum ListenEvent {
    /// A receive of zero bytes; ignored.
    Empty,
    /// A datagram the codec rejected; logged by the runtime layer and
    /// skipped.
    Malformed,
    /// A datagram decoded into a response.
    Decoded(Response),
    /// The receive itself failed; fatal to the session.
    Failed(Error),
}

/// The items the listener's output sequence carries for a run of receive
/// outcomes: each decoded response in order; nothing for empty or malformed
/// datagrams; and on the first receive failure, that failure — after which
/// the sequence has ended and later events contribute nothing.
pub open spec fn listen_outputs(events: Seq<ListenEvent>) -> Seq<Result<Response, Error>>
    decreases events.len(),
{
    if events.len() == 0 {
        Seq::empty()
    } else {
        match events[0] {
            ListenEvent::Failed(e) => seq![Err(e)],
            ListenEvent::Decoded(resp) => seq![Ok(resp)] + listen_outputs(events.drop_first()),
            _ => listen_outputs(events.drop_first()),
        }
    }
}

/// What the receive loop does with one event: what it yields, and whether it
/// goes on. Only a failure of the receive itself stops it.
pub fn listener_step(event: ListenEvent) -> (r: (Option<Result<Response, Error>>, bool))
    ensures
        match event {
            ListenEvent::Empty => r.0 is None && r.1 == true,
            ListenEvent::Malformed => r.0 is None && r.1 == true,
            ListenEvent::Decoded(resp) => r.0 == Some(Ok::<Response, Error>(resp)) && r.1 == true,
            ListenEvent::Failed(e) => r.0 == Some(Err::<Response, Error>(e)) && r.1 == false,
        },
{
    match event {
        ListenEvent::Empty => (None, true),
        ListenEvent::Malformed => (None, true),
        ListenEvent::Decoded(resp) => (Some(Ok(resp)), true),
        ListenEvent::Failed(e) => (Some(Err(e)), false),
    }
}

/// Law: every item yielded before the first receive failure is a response.
pub proof fn lemma_outputs_all_ok(events: Seq<ListenEvent>)
    requires
        forall|j: int| 0 <= j < events.len() ==> !(events[j] is Failed),
    ensures
        forall|k: int|
            0 <= k < listen_outputs(events).len() ==> listen_outputs(events)[k] is Ok,
    decreases events.len(),
{
    if events.len() > 0 {
        lemma_outputs_all_ok(events.drop_first());
    }
}

/// Law: a receive failure is terminal, and is yielded exactly once. The
/// output sequence is what the run up to the failure yielded — responses
/// only — followed by that one failure, and nothing after it.
pub proof fn lemma_failure_terminal(events: Seq<ListenEvent>, i: int)
    requires
        0 <= i < events.len(),
        events[i] is Failed,
        forall|j: int| 0 <= j < i ==> !(events[j] is Failed),
    ensures
        listen_outputs(events) == listen_outputs(events.take(i)).push(
            Err(events[i]->Failed_0),
        ),
        forall|k: int|
            0 <= k < listen_outputs(events.take(i)).len() ==> listen_outputs(
                events.take(i),
            )[k] is Ok,
    decreases i,
{
    lemma_outputs_all_ok(events.take(i));
    if i == 0 {
        assert(listen_outputs(events) =~= listen_outputs(events.take(0)).push(
            Err(events[0]->Failed_0),
        ));
    } else {
        lemma_failure_terminal(events.drop_first(), i - 1);
        assert(events.drop_first().take(i - 1) =~= events.take(i).drop_first());
        match events[0] {
            ListenEvent::Decoded(resp) => {
                assert(listen_outputs(events) =~= listen_outputs(events.take(i)).push(
                    Err(events[i]->Failed_0),
                ));
            },
            _ => {
                assert(listen_outputs(events) =~= listen_outputs(events.take(i)).push(
                    Err(events[i]->Failed_0),
                ));
            },
        }
    }
}

/// Law: a malformed datagram between two runs of events never interrupts
/// delivery — the outputs are exactly those of the run without it.
pub proof fn lemma_malformed_transparent(pre: Seq<ListenEvent>, post: Seq<ListenEvent>)
    ensures
        listen_outputs(pre.push(ListenEvent::Malformed) + post) == listen_outputs(pre + post),
    decreases pre.len(),
{
    let lhs = pre.push(ListenEvent::Malformed) + post;
    let rhs = pre + post;
    if pre.len() == 0 {
        assert(lhs[0] is Malformed);
        assert(lhs.drop_first() =~= post);
        assert(rhs =~= post);
    } else {
        assert(lhs[0] == pre[0]);
        assert(rhs[0] == pre[0]);
        assert(lhs.drop_first() =~= pre.drop_first().push(ListenEvent::Malformed) + post);
        assert(rhs.drop_first() =~= pre.drop_first() + post);
        lemma_malformed_transparent(pre.drop_first(), post);
    }
}

} // verus!
