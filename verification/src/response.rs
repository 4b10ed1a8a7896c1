//! The typed model of one decoded DNS response.
//!
//! A [`Response`] holds the three record sections of one message, in wire
//! order. [`Response::from_packet`] maps the codec's decoded packet into this
//! model deterministically; the accessors are pure projections over it.

use vstd::prelude::*;

use crate::net::IpAddress;
use crate::net::Ipv4Address;
use crate::net::Ipv6Address;
use crate::net::ServiceAddress;
use crate::txt::TxtEntry;
use crate::txt::TxtPairView;
use crate::txt::decode_txt;
use crate::txt::txt_pairs_of;
use crate::wire::PacketModel;
use crate::wire::WireData;
use crate::wire::WireDataView;
use crate::wire::WireRecordModel;
use crate::wire::packet_sections;
use crate::wire::rr_fields;

verus! {

/// A DNS class (RFC 1035).
#[derive(Clone, Copy, Debug, PartialEq, Eq, Structural)]
pub enum DnsClass {
    /// The Internet.
    IN,
    /// The CSNET class, obsolete.
    CS,
    /// The CHAOS class.
    CH,
    /// Hesiod.
    HS,
}

impl DnsClass {
    /// The class for a wire code, when the code names one.
    pub fn from_code(code: u8) -> (r: Option<DnsClass>)
        ensures
            r == (match code {
                1u8 => Some(DnsClass::IN),
                2u8 => Some(DnsClass::CS),
                3u8 => Some(DnsClass::CH),
                4u8 => Some(DnsClass::HS),
                _ => None::<DnsClass>,
            }),
    {
        match code {
            1 => Some(DnsClass::IN),
            2 => Some(DnsClass::CS),
            3 => Some(DnsClass::CH),
            4 => Some(DnsClass::HS),
            _ => None,
        }
    }

    /// The wire code of this class.
    pub fn code(&self) -> (r: u8)
        ensures
            r == (match self {
                DnsClass::IN => 1u8,
                DnsClass::CS => 2u8,
                DnsClass::CH => 3u8,
                DnsClass::HS => 4u8,
            }),
    {
        match self {
            DnsClass::IN => 1,
            DnsClass::CS => 2,
            DnsClass::CH => 3,
            DnsClass::HS => 4,
        }
    }
}

/// A specific DNS record variant.
#[derive(Clone, Debug, PartialEq, Eq)]
pub enum RecordKind {
    A(Ipv4Address),
    AAAA(Ipv6Address),
    CNAME(String),
    MX { preference: u16, exchange: String },
    NS(String),
    SRV { priority: u16, weight: u16, port: u16, target: String },
    TXT(Vec<TxtEntry>),
    PTR(String),
    /// A record kind without a typed representation here (SOA among them),
    /// carrying the raw payload bytes the codec handed out.
    Unimplemented(Vec<u8>),
}

/// The mathematical shape of a [`RecordKind`].
#[verifier::ext_equal]
pub ghost enum RecordKindView {
    A(Ipv4Address),
    AAAA(Ipv6Address),
    CNAME(Seq<char>),
    MX { preference: u16, exchange: Seq<char> },
    NS(Seq<char>),
    SRV { priority: u16, weight: u16, port: u16, target: Seq<char> },
    TXT(Seq<TxtPairView>),
    PTR(Seq<char>),
    Unimplemented(Seq<u8>),
}

impl View for RecordKind {
    type V = RecordKindView;

    open spec fn view(&self) -> RecordKindView {
        match self {
            RecordKind::A(a) => RecordKindView::A(*a),
            RecordKind::AAAA(a) => RecordKindView::AAAA(*a),
            RecordKind::CNAME(n) => RecordKindView::CNAME(n@),
            RecordKind::MX { preference, exchange } => RecordKindView::MX {
                preference: *preference,
                exchange: exchange@,
            },
            RecordKind::NS(n) => RecordKindView::NS(n@),
            RecordKind::SRV { priority, weight, port, target } => RecordKindView::SRV {
                priority: *priority,
                weight: *weight,
                port: *port,
                target: target@,
            },
            RecordKind::TXT(entries) => RecordKindView::TXT(
                entries@.map_values(|e: TxtEntry| e@),
            ),
            RecordKind::PTR(n) => RecordKindView::PTR(n@),
            RecordKind::Unimplemented(b) => RecordKindView::Unimplemented(b@),
        }
    }
}

/// Any type of DNS record: a name (verbatim case), a class, a time to live
/// and the typed payload.
#[derive(Clone, Debug, PartialEq, Eq)]
pub struct Record {
    pub name: String,
    pub class: DnsClass,
    pub ttl: u32,
    pub kind: RecordKind,
}

/// The mathematical shape of a [`Record`].
#[verifier::ext_equal]
pub ghost struct RecordView {
    pub name: Seq<char>,
    pub class: DnsClass,
    pub ttl: u32,
    pub kind: RecordKindView,
}

impl View for Record {
    type V = RecordView;

    open spec fn view(&self) -> RecordView {
        RecordView { name: self.name@, class: self.class, ttl: self.ttl, kind: self.kind@ }
    }
}

/// One decoded DNS response: three ordered record sections, kept in wire
/// order, immutable once constructed.
#[derive(Clone, Debug, PartialEq, Eq)]
pub struct Response {
    pub answers: Vec<Record>,
    pub nameservers: Vec<Record>,
    pub additional: Vec<Record>,
}

/// The mathematical shape of a [`Response`].
#[verifier::ext_equal]
pub ghost struct ResponseView {
    pub answers: Seq<RecordView>,
    pub nameservers: Seq<RecordView>,
    pub additional: Seq<RecordView>,
}

impl View for Response {
    type V = ResponseView;

    open spec fn view(&self) -> ResponseView {
        ResponseView {
            answers: self.answers@.map_values(|rec: Record| rec@),
            nameservers: self.nameservers@.map_values(|rec: Record| rec@),
            additional: self.additional@.map_values(|rec: Record| rec@),
        }
    }
}

impl ResponseView {
    /// All records of the response: answers, then nameservers, then
    /// additional, each section in wire order.
    pub open spec fn all_records(self) -> Seq<RecordView> {
        self.answers + self.nameservers + self.additional
    }

    /// Whether every section is empty.
    pub open spec fn spec_is_empty(self) -> bool {
        self.answers.len() == 0 && self.nameservers.len() == 0 && self.additional.len() == 0
    }
}

// ---------------------------------------------------------------------------
// Mapping the codec's decoded packet into the model
// ---------------------------------------------------------------------------

/// The typed payload a wire payload decodes to. SOA and untyped payloads map
/// to `Unimplemented` — intentionally unhandled, not a decode failure.
pub open spec fn kind_of_wire(d: WireDataView) -> RecordKindView {
    match d {
        WireDataView::A(a) => RecordKindView::A(a),
        WireDataView::Aaaa(a) => RecordKindView::AAAA(a),
        WireDataView::Cname(n) => RecordKindView::CNAME(n),
        WireDataView::Mx { preference, exchange } => RecordKindView::MX { preference, exchange },
        WireDataView::Ns(n) => RecordKindView::NS(n),
        WireDataView::Ptr(n) => RecordKindView::PTR(n),
        WireDataView::Srv { priority, weight, port, target } => RecordKindView::SRV {
            priority,
            weight,
            port,
            target,
        },
        WireDataView::Txt(entries) => RecordKindView::TXT(txt_pairs_of(entries)),
        WireDataView::Soa => RecordKindView::Unimplemented(Seq::empty()),
        WireDataView::Unknown(b) => RecordKindView::Unimplemented(b),
    }
}

/// The typed record a decoded resource record maps to.
pub open spec fn record_of_wire(w: WireRecordModel) -> RecordView {
    RecordView { name: w.name, class: w.class, ttl: w.ttl, kind: kind_of_wire(w.data) }
}

/// The response a decoded packet maps to, section by section.
pub open spec fn response_of_packet(m: PacketModel) -> ResponseView {
    ResponseView {
        answers: m.answers.map_values(|w: WireRecordModel| record_of_wire(w)),
        nameservers: m.nameservers.map_values(|w: WireRecordModel| record_of_wire(w)),
        additional: m.additional.map_values(|w: WireRecordModel| record_of_wire(w)),
    }
}

/// Builds the typed payload from a wire payload; TXT entries are decoded into
/// the deduplicated key/value mapping.
fn kind_from_wire(d: WireData) -> (r: RecordKind)
    ensures
        r@ == kind_of_wire(d@),
{
    match d {
        WireData::A(a) => RecordKind::A(a),
        WireData::Aaaa(a) => RecordKind::AAAA(a),
        WireData::Cname(n) => RecordKind::CNAME(n),
        WireData::Mx { preference, exchange } => RecordKind::MX { preference, exchange },
        WireData::Ns(n) => RecordKind::NS(n),
        WireData::Ptr(n) => RecordKind::PTR(n),
        WireData::Srv { priority, weight, port, target } => RecordKind::SRV {
            priority,
            weight,
            port,
            target,
        },
        WireData::Txt(entries) => RecordKind::TXT(decode_txt(&entries)),
        WireData::Soa => {
            let empty: Vec<u8> = Vec::new();
            proof {
                assert(empty@ =~= Seq::<u8>::empty());
            }
            RecordKind::Unimplemented(empty)
        },
        WireData::Unknown(b) => RecordKind::Unimplemented(b),
    }
}

/// Builds the typed records of one section.
fn convert_section(rrs: &Vec<dns_parser::ResourceRecord>) -> (r: Vec<Record>)
    ensures
        r@.map_values(|rec: Record| rec@) == rrs@.map_values(
            |rr: dns_parser::ResourceRecord| record_of_wire(crate::wire::rr_model(rr)),
        ),
{
    let mut out: Vec<Record> = Vec::new();
    let mut i: usize = 0;
    while i < rrs.len()
        invariant
            i <= rrs.len(),
            out@.len() == i,
            forall|j: int|
                0 <= j < i ==> out@.map_values(|rec: Record| rec@)[j] == record_of_wire(
                    crate::wire::rr_model(rrs@[j]),
                ),
        decreases rrs.len() - i,
    {
        let (name, class, ttl) = rr_fields(&rrs[i]);
        let data = match crate::wire::rr_data_names(&rrs[i]) {
            Some(d) => d,
            None => crate::wire::rr_data_values(&rrs[i]),
        };
        let kind = kind_from_wire(data);
        out.push(Record { name, class, ttl, kind });
        i += 1;
    }
    proof {
        assert(out@.map_values(|rec: Record| rec@) =~= rrs@.map_values(
            |rr: dns_parser::ResourceRecord| record_of_wire(crate::wire::rr_model(rr)),
        ));
    }
    out
}

impl Response {
    /// Maps the codec's decoded packet into the typed model, every section in
    /// wire order.
    pub fn from_packet(packet: &dns_parser::Packet) -> (r: Response)
        ensures
            r@ == response_of_packet(crate::wire::packet_model(*packet)),
    {
        let (ans, ns, add) = packet_sections(packet);
        let answers = convert_section(ans);
        let nameservers = convert_section(ns);
        let additional = convert_section(add);
        let r = Response { answers, nameservers, additional };
        proof {
            let m = crate::wire::packet_model(*packet);
            assert(r@.answers =~= m.answers.map_values(|w: WireRecordModel| record_of_wire(w)));
            assert(r@.nameservers =~= m.nameservers.map_values(
                |w: WireRecordModel| record_of_wire(w),
            ));
            assert(r@.additional =~= m.additional.map_values(
                |w: WireRecordModel| record_of_wire(w),
            ));
            assert(r@ =~= response_of_packet(m));
        }
        r
    }

    /// All records of the response, answers first, then nameservers, then
    /// additional, each section in wire order.
    pub fn records(&self) -> (r: Vec<&Record>)
        ensures
            r@.map_values(|rec: &Record| rec@) == self@.all_records(),
    {
        let mut out: Vec<&Record> = Vec::new();
        let mut i: usize = 0;
        while i < self.answers.len()
            invariant
                i <= self.answers.len(),
                out@.len() == i,
                forall|j: int| 0 <= j < i ==> out@[j]@ == self@.answers[j],
            decreases self.answers.len() - i,
        {
            out.push(&self.answers[i]);
            i += 1;
        }
        let mut i: usize = 0;
        while i < self.nameservers.len()
            invariant
                i <= self.nameservers.len(),
                out@.len() == self.answers@.len() + i,
                forall|j: int| 0 <= j < self.answers@.len() ==> out@[j]@ == self@.answers[j],
                forall|j: int|
                    0 <= j < i ==> out@[self.answers@.len() + j]@ == self@.nameservers[j],
            decreases self.nameservers.len() - i,
        {
            out.push(&self.nameservers[i]);
            i += 1;
        }
        let mut i: usize = 0;
        while i < self.additional.len()
            invariant
                i <= self.additional.len(),
                out@.len() == self.answers@.len() + self.nameservers@.len() + i,
                forall|j: int| 0 <= j < self.answers@.len() ==> out@[j]@ == self@.answers[j],
                forall|j: int|
                    0 <= j < self.nameservers@.len() ==> out@[self.answers@.len() + j]@
                        == self@.nameservers[j],
                forall|j: int|
                    0 <= j < i ==> out@[self.answers@.len() + self.nameservers@.len() + j]@
                        == self@.additional[j],
            decreases self.additional.len() - i,
        {
            out.push(&self.additional[i]);
            i += 1;
        }
        proof {
            assert(out@.map_values(|rec: &Record| rec@) =~= self@.all_records());
        }
        out
    }

    /// Whether the response carries no record at all: true exactly when the
    /// answer, nameserver and additional sections are all empty.
    pub fn is_empty(&self) -> (r: bool)
        ensures
            r == self@.spec_is_empty(),
    {
        self.answers.len() == 0 && self.nameservers.len() == 0 && self.additional.len() == 0
    }
}

// ---------------------------------------------------------------------------
// First-match projections over the records
// ---------------------------------------------------------------------------

/// The address an `A` or `AAAA` record carries.
pub open spec fn ip_of_record(rec: RecordView) -> Option<IpAddress> {
    match rec.kind {
        RecordKindView::A(a) => Some(IpAddress::V4(a)),
        RecordKindView::AAAA(a) => Some(IpAddress::V6(a)),
        _ => None,
    }
}

/// The target a `PTR` record carries.
pub open spec fn ptr_of_record(rec: RecordView) -> Option<Seq<char>> {
    match rec.kind {
        RecordKindView::PTR(n) => Some(n),
        _ => None,
    }
}

/// The port an `SRV` record carries.
pub open spec fn port_of_record(rec: RecordView) -> Option<u16> {
    match rec.kind {
        RecordKindView::SRV { port, .. } => Some(port),
        _ => None,
    }
}

/// The first `A` or `AAAA` address in wire order across all sections.
pub open spec fn first_ip(recs: Seq<RecordView>) -> Option<IpAddress>
    decreases recs.len(),
{
    if recs.len() == 0 {
        None
    } else if ip_of_record(recs[0]) is Some {
        ip_of_record(recs[0])
    } else {
        first_ip(recs.drop_first())
    }
}

/// The first `PTR` target in wire order across all sections.
pub open spec fn first_ptr(recs: Seq<RecordView>) -> Option<Seq<char>>
    decreases recs.len(),
{
    if recs.len() == 0 {
        None
    } else if ptr_of_record(recs[0]) is Some {
        ptr_of_record(recs[0])
    } else {
        first_ptr(recs.drop_first())
    }
}

/// The first `SRV` port in wire order across all sections.
pub open spec fn first_srv_port(recs: Seq<RecordView>) -> Option<u16>
    decreases recs.len(),
{
    if recs.len() == 0 {
        None
    } else if port_of_record(recs[0]) is Some {
        port_of_record(recs[0])
    } else {
        first_srv_port(recs.drop_first())
    }
}

proof fn lemma_first_ip_at(recs: Seq<RecordView>, i: int)
    requires
        0 <= i < recs.len(),
        ip_of_record(recs[i]) is Some,
        forall|j: int| 0 <= j < i ==> ip_of_record(recs[j]) is None,
    ensures
        first_ip(recs) == ip_of_record(recs[i]),
    decreases i,
{
    if i > 0 {
        lemma_first_ip_at(recs.drop_first(), i - 1);
    }
}

proof fn lemma_first_ip_none(recs: Seq<RecordView>)
    requires
        forall|j: int| 0 <= j < recs.len() ==> ip_of_record(recs[j]) is None,
    ensures
        first_ip(recs) is None,
    decreases recs.len(),
{
    if recs.len() > 0 {
        lemma_first_ip_none(recs.drop_first());
    }
}

proof fn lemma_first_ptr_at(recs: Seq<RecordView>, i: int)
    requires
        0 <= i < recs.len(),
        ptr_of_record(recs[i]) is Some,
        forall|j: int| 0 <= j < i ==> ptr_of_record(recs[j]) is None,
    ensures
        first_ptr(recs) == ptr_of_record(recs[i]),
    decreases i,
{
    if i > 0 {
        lemma_first_ptr_at(recs.drop_first(), i - 1);
    }
}

proof fn lemma_first_ptr_none(recs: Seq<RecordView>)
    requires
        forall|j: int| 0 <= j < recs.len() ==> ptr_of_record(recs[j]) is None,
    ensures
        first_ptr(recs) is None,
    decreases recs.len(),
{
    if recs.len() > 0 {
        lemma_first_ptr_none(recs.drop_first());
    }
}

proof fn lemma_first_srv_port_at(recs: Seq<RecordView>, i: int)
    requires
        0 <= i < recs.len(),
        port_of_record(recs[i]) is Some,
        forall|j: int| 0 <= j < i ==> port_of_record(recs[j]) is None,
    ensures
        first_srv_port(recs) == port_of_record(recs[i]),
    decreases i,
{
    if i > 0 {
        lemma_first_srv_port_at(recs.drop_first(), i - 1);
    }
}

proof fn lemma_first_srv_port_none(recs: Seq<RecordView>)
    requires
        forall|j: int| 0 <= j < recs.len() ==> port_of_record(recs[j]) is None,
    ensures
        first_srv_port(recs) is None,
    decreases recs.len(),
{
    if recs.len() > 0 {
        lemma_first_srv_port_none(recs.drop_first());
    }
}

impl Response {
    /// The first `A` or `AAAA` address found in wire order across all
    /// sections; neither kind is preferred beyond that order.
    pub fn ip_addr(&self) -> (r: Option<IpAddress>)
        ensures
            r == first_ip(self@.all_records()),
    {
        let recs = self.records();
        let ghost all = self@.all_records();
        let mut i: usize = 0;
        while i < recs.len()
            invariant
                i <= recs.len(),
                all == self@.all_records(),
                recs@.map_values(|rec: &Record| rec@) == all,
                recs@.len() == all.len(),
                forall|j: int| 0 <= j < i ==> ip_of_record(all[j]) is None,
            decreases recs.len() - i,
        {
            let rec = recs[i];
            proof {
                assert(recs@.map_values(|r2: &Record| r2@)[i as int] == all[i as int]);
                assert(rec@ == all[i as int]);
            }
            match &rec.kind {
                RecordKind::A(a) => {
                    proof {
                        assert(all[i as int].kind == RecordKindView::A(*a));
                        lemma_first_ip_at(all, i as int);
                    }
                    return Some(IpAddress::V4(*a));
                },
                RecordKind::AAAA(a) => {
                    proof {
                        assert(all[i as int].kind == RecordKindView::AAAA(*a));
                        lemma_first_ip_at(all, i as int);
                    }
                    return Some(IpAddress::V6(*a));
                },
                _ => {
                    proof {
                        assert(ip_of_record(all[i as int]) is None);
                    }
                },
            }
            i += 1;
        }
        proof {
            lemma_first_ip_none(all);
        }
        None
    }

    /// The first `PTR` target found in wire order across all sections.
    pub fn hostname(&self) -> (r: Option<String>)
        ensures
            match r {
                Some(s) => first_ptr(self@.all_records()) == Some(s@),
                None => first_ptr(self@.all_records()) is None,
            },
    {
        let recs = self.records();
        let ghost all = self@.all_records();
        let mut i: usize = 0;
        while i < recs.len()
            invariant
                i <= recs.len(),
                all == self@.all_records(),
                recs@.map_values(|rec: &Record| rec@) == all,
                recs@.len() == all.len(),
                forall|j: int| 0 <= j < i ==> ptr_of_record(all[j]) is None,
            decreases recs.len() - i,
        {
            let rec = recs[i];
            proof {
                assert(recs@.map_values(|r2: &Record| r2@)[i as int] == all[i as int]);
                assert(rec@ == all[i as int]);
            }
            match &rec.kind {
                RecordKind::PTR(host) => {
                    proof {
                        assert(all[i as int].kind == RecordKindView::PTR(host@));
                        lemma_first_ptr_at(all, i as int);
                    }
                    return Some(host.clone());
                },
                _ => {
                    proof {
                        assert(ptr_of_record(all[i as int]) is None);
                    }
                },
            }
            i += 1;
        }
        proof {
            lemma_first_ptr_none(all);
        }
        None
    }

    /// The first `SRV` port found in wire order across all sections.
    pub fn port(&self) -> (r: Option<u16>)
        ensures
            r == first_srv_port(self@.all_records()),
    {
        let recs = self.records();
        let ghost all = self@.all_records();
        let mut i: usize = 0;
        while i < recs.len()
            invariant
                i <= recs.len(),
                all == self@.all_records(),
                recs@.map_values(|rec: &Record| rec@) == all,
                recs@.len() == all.len(),
                forall|j: int| 0 <= j < i ==> port_of_record(all[j]) is None,
            decreases recs.len() - i,
        {
            let rec = recs[i];
            proof {
                assert(recs@.map_values(|r2: &Record| r2@)[i as int] == all[i as int]);
                assert(rec@ == all[i as int]);
            }
            match &rec.kind {
                RecordKind::SRV { port, .. } => {
                    proof {
                        assert(all[i as int].kind is SRV);
                        assert(all[i as int].kind->SRV_port == *port);
                        lemma_first_srv_port_at(all, i as int);
                    }
                    return Some(*port);
                },
                _ => {
                    proof {
                        assert(port_of_record(all[i as int]) is None);
                    }
                },
            }
            i += 1;
        }
        proof {
            lemma_first_srv_port_none(all);
        }
        None
    }

    /// The response's address and port combined: a value exactly when the
    /// response holds both an address record (`A`/`AAAA`) and an `SRV` record
    /// with a port; `None` otherwise.
    pub fn socket_address(&self) -> (r: Option<ServiceAddress>)
        ensures
            r == (match (first_ip(self@.all_records()), first_srv_port(self@.all_records())) {
                (Some(ip), Some(port)) => Some((ServiceAddress { ip, port })),
                _ => None::<ServiceAddress>,
            }),
    {
        match (self.ip_addr(), self.port()) {
            (Some(ip), Some(port)) => Some(ServiceAddress { ip, port }),
            _ => None,
        }
    }
}

// ---------------------------------------------------------------------------
// Flattened TXT pairs
// ---------------------------------------------------------------------------

/// The TXT pairs a record contributes: its decoded mapping for a `TXT`
/// record, nothing otherwise.
pub open spec fn txt_pairs_of_record(rec: RecordView) -> Seq<TxtPairView> {
    match rec.kind {
        RecordKindView::TXT(pairs) => pairs,
        _ => Seq::empty(),
    }
}

/// All TXT pairs of the response, flattened across every `TXT` record in wire
/// order across all sections.
pub open spec fn txt_pairs_flat(recs: Seq<RecordView>) -> Seq<TxtPairView>
    decreases recs.len(),
{
    if recs.len() == 0 {
        Seq::empty()
    } else {
        txt_pairs_flat(recs.drop_last()) + txt_pairs_of_record(recs.last())
    }
}

impl Response {
    /// All key/value pairs across every `TXT` record of the response, in wire
    /// order across all sections.
    #[verifier::rlimit(30)]
    pub fn txt_records(&self) -> (r: Vec<&TxtEntry>)
        ensures
            r@.map_values(|e: &TxtEntry| e@) == txt_pairs_flat(self@.all_records()),
    {
        let recs = self.records();
        let ghost all = self@.all_records();
        let mut out: Vec<&TxtEntry> = Vec::new();
        let mut i: usize = 0;
        while i < recs.len()
            invariant
                i <= recs.len(),
                all == self@.all_records(),
                recs@.map_values(|rec: &Record| rec@) == all,
                recs@.len() == all.len(),
                out@.map_values(|e: &TxtEntry| e@) == txt_pairs_flat(all.take(i as int)),
            decreases recs.len() - i,
        {
            let rec = recs[i];
            proof {
                assert(recs@.map_values(|r2: &Record| r2@)[i as int] == all[i as int]);
                assert(rec@ == all[i as int]);
                assert(all.take(i as int + 1).drop_last() =~= all.take(i as int));
                assert(all.take(i as int + 1).last() == all[i as int]);
            }
            match &rec.kind {
                RecordKind::TXT(entries) => {
                    let ghost em = entries@.map_values(|e: TxtEntry| e@);
                    proof {
                        assert(all[i as int].kind == RecordKindView::TXT(em));
                        assert(out@.map_values(|e: &TxtEntry| e@) =~= txt_pairs_flat(
                            all.take(i as int),
                        ) + em.take(0));
                    }
                    let mut j: usize = 0;
                    while j < entries.len()
                        invariant
                            j <= entries.len(),
                            em == entries@.map_values(|e: TxtEntry| e@),
                            out@.map_values(|e: &TxtEntry| e@) == txt_pairs_flat(
                                all.take(i as int),
                            ) + em.take(j as int),
                        decreases entries.len() - j,
                    {
                        let entry_ref = &entries[j];
                        let ghost old_out = out@;
                        let ghost old_m = out@.map_values(|e: &TxtEntry| e@);
                        proof {
                            assert(entry_ref@ == em[j as int]);
                        }
                        out.push(entry_ref);
                        j += 1;
                        proof {
                            let m_new = out@.map_values(|e: &TxtEntry| e@);
                            let rhs = txt_pairs_flat(all.take(i as int)) + em.take(j as int);
                            assert(out@ == old_out.push(entry_ref));
                            assert(m_new.len() == out@.len());
                            assert(out@.len() == old_out.len() + 1);
                            assert(old_out.len() == old_m.len());
                            assert(old_m == txt_pairs_flat(all.take(i as int)) + em.take(
                                j as int - 1,
                            ));
                            assert(em.take(j as int).len() == j as int);
                            assert(m_new.len() == rhs.len());
                            assert forall|k: int| 0 <= k < m_new.len() implies m_new[k] == rhs[k] by {
                                assert(m_new[k] == out@[k]@);
                                if k < old_out.len() {
                                    assert(out@[k] == old_out[k]);
                                    assert(old_m[k] == old_out[k]@);
                                } else {
                                    assert(out@[k] == entry_ref);
                                    assert(rhs[k] == em.take(j as int)[j as int - 1]);
                                }
                            }
                            assert(m_new =~= rhs);
                        }
                    }
                    proof {
                        assert(em.take(em.len() as int) =~= em);
                        assert(txt_pairs_of_record(all[i as int]) == em);
                        assert(out@.map_values(|e: &TxtEntry| e@) =~= txt_pairs_flat(
                            all.take(i as int + 1),
                        ));
                    }
                },
                _ => {
                    proof {
                        assert(txt_pairs_of_record(all[i as int]) =~= Seq::<TxtPairView>::empty());
                        assert(out@.map_values(|e: &TxtEntry| e@) =~= txt_pairs_flat(
                            all.take(i as int + 1),
                        ));
                    }
                },
            }
            i += 1;
        }
        proof {
            assert(all.take(all.len() as int) =~= all);
        }
        out
    }
}

} // verus!
