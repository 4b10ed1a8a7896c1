//! The discovery engine: the decision core of one discovery session.
//!
//! A session merges two event sources — the listener's output sequence and a
//! repeating timer — into one sequence of [`StreamResult`] items. The engine
//! decides, item by item, whether to fire a query, forward the item to the
//! caller, or drop it. The runtime layer performs the merge, the sends and
//! the receives; every decision is made and verified here.

use vstd::prelude::*;

use crate::errors::Error;
use crate::mdns::mDNSListener;
use crate::mdns::mDNSSender;
use crate::mdns::mdns_interface;
use crate::net::Ipv4Address;
use crate::response::Response;
use crate::response::ResponseView;

verus! {

/// Which local interfaces a discovery session is scoped to.
#[derive(Clone, Copy, Debug, PartialEq, Eq)]
pub enum InterfaceScope {
    /// Every local IPv4 interface at once.
    All,
    /// One local interface, by its IPv4 address.
    Single(Ipv4Address),
}

/// A multicast DNS discovery request: a single lookup of a single service
/// name. Configured with the builder-style [`Discovery::ignore_empty`], then
/// consumed by the runtime layer, which owns the sender and listener for the
/// rest of the session's life.
#[derive(Debug)]
pub struct Discovery {
    pub service_name: String,
    pub mdns_sender: mDNSSender,
    pub mdns_listener: mDNSListener,
    /// Whether empty responses are suppressed.
    pub ignore_empty: bool,
    /// The cadence of periodic re-queries, in milliseconds.
    pub query_interval_millis: u64,
    /// Which interfaces the session covers.
    pub scope: InterfaceScope,
}

/// A discovery session over all local IPv4 interfaces, re-querying every
/// `query_interval_millis`. Empty responses are suppressed by default.
pub fn all(service_name: &str, query_interval_millis: u64) -> (r: Discovery)
    ensures
        r.service_name@ == service_name@,
        r.mdns_sender.service_name@ == service_name@,
        r.mdns_listener.recv_buffer@.len() == crate::mdns::DEFAULT_BUFFER_SIZE,
        r.ignore_empty == true,
        r.query_interval_millis == query_interval_millis,
        r.scope is All,
{
    let (mdns_listener, mdns_sender) = mdns_interface(service_name.to_owned());
    Discovery {
        service_name: service_name.to_owned(),
        mdns_sender,
        mdns_listener,
        ignore_empty: true,
        query_interval_millis,
        scope: InterfaceScope::All,
    }
}

/// A discovery session scoped to the one local interface at
/// `interface_addr`, re-querying every `query_interval_millis`. Empty
/// responses are suppressed by default.
pub fn interface(service_name: &str, query_interval_millis: u64, interface_addr: Ipv4Address) -> (r:
    Discovery)
    ensures
        r.service_name@ == service_name@,
        r.mdns_sender.service_name@ == service_name@,
        r.mdns_listener.recv_buffer@.len() == crate::mdns::DEFAULT_BUFFER_SIZE,
        r.ignore_empty == true,
        r.query_interval_millis == query_interval_millis,
        r.scope == InterfaceScope::Single(interface_addr),
{
    let (mdns_listener, mdns_sender) = mdns_interface(service_name.to_owned());
    Discovery {
        service_name: service_name.to_owned(),
        mdns_sender,
        mdns_listener,
        ignore_empty: true,
        query_interval_millis,
        scope: InterfaceScope::Single(interface_addr),
    }
}

// ---------------------------------------------------------------------------
// The output filter
// ---------------------------------------------------------------------------

/// Whether some answer's name is exactly the queried service name.
pub open spec fn has_matching_answer(resp: ResponseView, service: Seq<char>) -> bool {
    exists|i: int| 0 <= i < resp.answers.len() && #[trigger] resp.answers[i].name == service
}

/// The output filter: a decoded response reaches the caller exactly when it
/// is not empty (or empty responses are admitted) and one of its answers is
/// named exactly like the queried service. The name match is required
/// whatever `ignore_empty` says — and since an empty response has no answer
/// to match, admitting empty responses never forwards one on its own.
pub open spec fn should_forward(resp: ResponseView, service: Seq<char>, ignore_empty: bool) -> bool {
    (!resp.spec_is_empty() || !ignore_empty) && has_matching_answer(resp, service)
}

/// Law: a response none of whose answers is named exactly like the queried
/// service is never forwarded, whatever the `ignore_empty` setting.
pub proof fn lemma_unmatched_never_forwarded(
    resp: ResponseView,
    service: Seq<char>,
    ignore_empty: bool,
)
    requires
        forall|i: int| 0 <= i < resp.answers.len() ==> #[trigger] resp.answers[i].name != service,
    ensures
        !should_forward(resp, service, ignore_empty),
{
}

impl Discovery {
    /// Whether `resp` passes this session's output filter.
    pub fn passes_filter(&self, resp: &Response) -> (r: bool)
        ensures
            r == should_forward(resp@, self.service_name@, self.ignore_empty),
    {
        if resp.is_empty() && self.ignore_empty {
            return false;
        }
        let mut i: usize = 0;
        while i < resp.answers.len()
            invariant
                i <= resp.answers@.len(),
                forall|j: int|
                    0 <= j < i ==> #[trigger] resp@.answers[j].name != self.service_name@,
            decreases resp.answers@.len() - i,
        {
            if resp.answers[i].name == self.service_name {
                proof {
                    assert(resp@.answers[i as int].name == self.service_name@);
                }
                return true;
            }
            proof {
                assert(resp@.answers[i as int].name != self.service_name@);
            }
            i += 1;
        }
        proof {
            assert(!has_matching_answer(resp@, self.service_name@));
        }
        false
    }

    /// Sets whether empty responses are suppressed. Defaults to `true`.
    pub fn ignore_empty(self, ignore: bool) -> (r: Self)
        ensures
            r.ignore_empty == ignore,
            r.service_name == self.service_name,
            r.mdns_sender == self.mdns_sender,
            r.mdns_listener == self.mdns_listener,
            r.query_interval_millis == self.query_interval_millis,
            r.scope == self.scope,
    {
        Discovery { ignore_empty: ignore, ..self }
    }
}

// ---------------------------------------------------------------------------
// The engine's per-item decision
// ---------------------------------------------------------------------------

/// One item of the merged event sequence the engine consumes: a timer tick,
/// or an item of the listener's output sequence.
#[derive(Debug, PartialEq, Eq)]
pub enum StreamResult {
    Interval,
    Response(Result<Response, Error>),
}

/// What the engine does with one merged item.
#[derive(Debug, PartialEq, Eq)]
pub enum EngineAction {
    /// Fire one query, detached from the output sequence; a failure of that
    /// send is logged, never surfaced.
    SendQuery,
    /// Hand the item to the caller.
    Forward(Result<Response, Error>),
    /// Drop the item.
    Discard,
}

/// The engine's decision for one merged item: a tick triggers a query and is
/// itself dropped; an error is always forwarded; a response is forwarded
/// exactly when it passes the output filter.
pub open spec fn engine_action_spec(
    service: Seq<char>,
    ignore_empty: bool,
    item: StreamResult,
) -> EngineAction {
    match item {
        StreamResult::Interval => EngineAction::SendQuery,
        StreamResult::Response(res) => match res {
            Ok(resp) => if should_forward(resp@, service, ignore_empty) {
                EngineAction::Forward(Ok(resp))
            } else {
                EngineAction::Discard
            },
            Err(e) => EngineAction::Forward(Err(e)),
        },
    }
}

impl Discovery {
    /// Decides what the session does with one merged item.
    pub fn handle_stream_item(&self, item: StreamResult) -> (r: EngineAction)
        ensures
            r == engine_action_spec(self.service_name@, self.ignore_empty, item),
    {
        match item {
            StreamResult::Interval => EngineAction::SendQuery,
            StreamResult::Response(res) => match res {
                Ok(resp) => {
                    if self.passes_filter(&resp) {
                        EngineAction::Forward(Ok(resp))
                    } else {
                        EngineAction::Discard
                    }
                },
                Err(e) => EngineAction::Forward(Err(e)),
            },
        }
    }
}

// ---------------------------------------------------------------------------
// A whole session's actions
// ---------------------------------------------------------------------------

/// The actions of a whole session on a run of merged items: one query fired
/// immediately on entering the terminal listen, then the engine's decision
/// for each item in order.
pub open spec fn session_actions(
    service: Seq<char>,
    ignore_empty: bool,
    items: Seq<StreamResult>,
) -> Seq<EngineAction> {
    seq![EngineAction::SendQuery] + items.map_values(
        |it: StreamResult| engine_action_spec(service, ignore_empty, it),
    )
}

/// How many of the actions fire a query.
pub open spec fn count_queries(actions: Seq<EngineAction>) -> nat
    decreases actions.len(),
{
    if actions.len() == 0 {
        0
    } else {
        count_queries(actions.drop_last()) + if actions.last() is SendQuery {
            1nat
        } else {
            0nat
        }
    }
}

/// How many of the items are timer ticks.
pub open spec fn count_ticks(items: Seq<StreamResult>) -> nat
    decreases items.len(),
{
    if items.len() == 0 {
        0
    } else {
        count_ticks(items.drop_last()) + if items.last() is Interval {
            1nat
        } else {
            0nat
        }
    }
}

/// Law: a session fires one query immediately and then exactly one query per
/// timer tick — listener items, forwarded or dropped, never trigger one.
pub proof fn lemma_one_query_per_tick(
    service: Seq<char>,
    ignore_empty: bool,
    items: Seq<StreamResult>,
)
    ensures
        count_queries(session_actions(service, ignore_empty, items)) == 1 + count_ticks(items),
    decreases items.len(),
{
    let sa = session_actions(service, ignore_empty, items);
    if items.len() == 0 {
        assert(sa =~= seq![EngineAction::SendQuery]);
        assert(sa.drop_last() =~= Seq::<EngineAction>::empty());
        assert(count_queries(Seq::<EngineAction>::empty()) == 0);
        assert(sa.last() == EngineAction::SendQuery);
    } else {
        let pre = items.drop_last();
        let sa_pre = session_actions(service, ignore_empty, pre);
        lemma_one_query_per_tick(service, ignore_empty, pre);
        assert(sa.len() == items.len() + 1);
        assert(sa.drop_last() =~= sa_pre);
        assert(sa.last() == engine_action_spec(service, ignore_empty, items.last()));
        assert((sa.last() is SendQuery) <==> (items.last() is Interval));
    }
}

} // verus!
