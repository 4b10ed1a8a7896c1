//! The trusted edge to the DNS message codec.
//!
//! Wire-format decoding is delegated to the `dns_parser` crate. A decoded
//! packet and its resource records are opaque here, so their contents are
//! given names (`packet_model`, `rr_model`) that the small trusted accessors
//! below tie to the plain values they hand out. Everything downstream of
//! these accessors is verified against those names.

use vstd::prelude::*;

use crate::net::Ipv4Address;
use crate::net::Ipv6Address;
use crate::response::DnsClass;
use dns_parser::RData;

verus! {

#[verifier::external_type_specification]
#[verifier::external_body]
pub struct ExPacket<'a>(dns_parser::Packet<'a>);

#[verifier::external_type_specification]
#[verifier::external_body]
pub struct ExResourceRecord<'a>(dns_parser::ResourceRecord<'a>);

/// The payload of one resource record, carried as plain values: addresses as
/// octets, domain names in display form, TXT entries as raw byte strings in
/// wire order, and anything the codec does not type as its raw bytes.
#[derive(Debug)]
pub enum WireData {
    A(Ipv4Address),
    Aaaa(Ipv6Address),
    Cname(String),
    Mx { preference: u16, exchange: String },
    Ns(String),
    Ptr(String),
    Srv { priority: u16, weight: u16, port: u16, target: String },
    Txt(Vec<Vec<u8>>),
    Soa,
    Unknown(Vec<u8>),
}

/// The mathematical shape of a [`WireData`].
#[verifier::ext_equal]
pub ghost enum WireDataView {
    A(Ipv4Address),
    Aaaa(Ipv6Address),
    Cname(Seq<char>),
    Mx { preference: u16, exchange: Seq<char> },
    Ns(Seq<char>),
    Ptr(Seq<char>),
    Srv { priority: u16, weight: u16, port: u16, target: Seq<char> },
    Txt(Seq<Seq<u8>>),
    Soa,
    Unknown(Seq<u8>),
}

impl View for WireData {
    type V = WireDataView;

    open spec fn view(&self) -> WireDataView {
        match self {
            WireData::A(a) => WireDataView::A(*a),
            WireData::Aaaa(a) => WireDataView::Aaaa(*a),
            WireData::Cname(n) => WireDataView::Cname(n@),
            WireData::Mx { preference, exchange } => WireDataView::Mx {
                preference: *preference,
                exchange: exchange@,
            },
            WireData::Ns(n) => WireDataView::Ns(n@),
            WireData::Ptr(n) => WireDataView::Ptr(n@),
            WireData::Srv { priority, weight, port, target } => WireDataView::Srv {
                priority: *priority,
                weight: *weight,
                port: *port,
                target: target@,
            },
            WireData::Txt(entries) => WireDataView::Txt(entries.deep_view()),
            WireData::Soa => WireDataView::Soa,
            WireData::Unknown(b) => WireDataView::Unknown(b@),
        }
    }
}

/// What one decoded resource record holds.
#[verifier::ext_equal]
pub ghost struct WireRecordModel {
    pub name: Seq<char>,
    pub class: DnsClass,
    pub ttl: u32,
    pub data: WireDataView,
}

/// What one decoded packet holds: its three record sections in wire order.
#[verifier::ext_equal]
pub ghost struct PacketModel {
    pub answers: Seq<WireRecordModel>,
    pub nameservers: Seq<WireRecordModel>,
    pub additional: Seq<WireRecordModel>,
}

/// What a decoded resource record of the DNS codec holds.
pub uninterp spec fn rr_model(rr: dns_parser::ResourceRecord) -> WireRecordModel;

/// What a decoded packet of the DNS codec holds.
pub uninterp spec fn packet_model(p: dns_parser::Packet) -> PacketModel;

/// What the DNS codec decodes a run of bytes to: the message's contents, or
/// nothing when it rejects the bytes as malformed. Decoding is a pure
/// function of the bytes.
pub uninterp spec fn parsed_message_of(bytes: Seq<u8>) -> Option<PacketModel>;

/// Relies on `dns_parser::Packet::parse`: decodes one DNS message — a pure
/// function of the bytes — or describes why the bytes are malformed.
#[verifier::external_body]
pub(crate) fn parse_packet<'a>(data: &'a [u8]) -> (r: Result<dns_parser::Packet<'a>, String>)
    ensures
        (r matches Ok(p) ==> parsed_message_of(data@) == Some(packet_model(p))),
        (r matches Err(_) ==> parsed_message_of(data@) is None),
{
    dns_parser::Packet::parse(data).map_err(|e| e.to_string())
}

/// Relies on field access of `dns_parser::Packet`: hands out the answer,
/// authority and additional sections, in wire order.
#[verifier::external_body]
pub(crate) fn packet_sections<'a, 'b>(p: &'b dns_parser::Packet<'a>) -> (r: (
    &'b Vec<dns_parser::ResourceRecord<'a>>,
    &'b Vec<dns_parser::ResourceRecord<'a>>,
    &'b Vec<dns_parser::ResourceRecord<'a>>,
))
    ensures
        r.0@.map_values(|rr: dns_parser::ResourceRecord<'a>| rr_model(rr)) == packet_model(
            *p,
        ).answers,
        r.1@.map_values(|rr: dns_parser::ResourceRecord<'a>| rr_model(rr)) == packet_model(
            *p,
        ).nameservers,
        r.2@.map_values(|rr: dns_parser::ResourceRecord<'a>| rr_model(rr)) == packet_model(
            *p,
        ).additional,
{
    (&p.answers, &p.nameservers, &p.additional)
}

/// Relies on field access of `dns_parser::ResourceRecord` and on
/// `dns_parser::Name`'s display form (labels joined by dots): hands out the
/// record's name, class and time to live. `Packet::parse` admits only ASCII
/// labels, so rendering the name cannot fail.
#[verifier::external_body]
pub(crate) fn rr_fields(rr: &dns_parser::ResourceRecord) -> (r: (String, DnsClass, u32))
    ensures
        r.0@ == rr_model(*rr).name,
        r.1 == rr_model(*rr).class,
        r.2 == rr_model(*rr).ttl,
{
    let class = match rr.cls {
        dns_parser::Class::IN => DnsClass::IN,
        dns_parser::Class::CS => DnsClass::CS,
        dns_parser::Class::CH => DnsClass::CH,
        dns_parser::Class::HS => DnsClass::HS,
    };
    (rr.name.to_string(), class, rr.ttl)
}

/// Relies on the variant layout of `dns_parser::RData`: hands over the
/// payload variants that carry a domain name (CNAME, MX, NS, PTR, SRV),
/// names rendered in display form, and reports every other variant as
/// `None`.
#[verifier::external_body]
pub(crate) fn rr_data_names(rr: &dns_parser::ResourceRecord) -> (r: Option<WireData>)
    ensures
        (r matches Some(d) ==> d@ == rr_model(*rr).data),
        r is None ==> !(rr_model(*rr).data is Cname) && !(rr_model(*rr).data is Mx) && !(
        rr_model(*rr).data is Ns) && !(rr_model(*rr).data is Ptr) && !(rr_model(
            *rr,
        ).data is Srv),
{
    match &rr.data {
        RData::CNAME(n) => Some(WireData::Cname(n.0.to_string())),
        RData::MX(m) => Some(WireData::Mx { preference: m.preference, exchange: m.exchange.to_string() }),
        RData::NS(n) => Some(WireData::Ns(n.0.to_string())),
        RData::PTR(n) => Some(WireData::Ptr(n.0.to_string())),
        RData::SRV(s) => Some(WireData::Srv { priority: s.priority, weight: s.weight, port: s.port, target: s.target.to_string() }),
        _ => None,
    }
}

/// Relies on the variant layout of `dns_parser::RData`: hands over the
/// payload variants that carry plain values — addresses as octets, TXT
/// entries as raw byte strings in wire order, untyped payloads as their raw
/// bytes. Callers reach it only for those variants, so its contract says
/// nothing of the ones [`rr_data_names`] covers.
#[verifier::external_body]
pub(crate) fn rr_data_values(rr: &dns_parser::ResourceRecord) -> (r: WireData)
    ensures
        !(rr_model(*rr).data is Cname) && !(rr_model(*rr).data is Mx) && !(rr_model(
            *rr,
        ).data is Ns) && !(rr_model(*rr).data is Ptr) && !(rr_model(*rr).data is Srv) ==> r@
            == rr_model(*rr).data,
{
    match &rr.data {
        RData::A(a) => WireData::A(Ipv4Address { octets: a.0.octets() }),
        RData::AAAA(a) => WireData::Aaaa(Ipv6Address { segments: a.0.segments() }),
        RData::TXT(t) => WireData::Txt(t.iter().map(|e| e.to_vec()).collect()),
        RData::SOA(_) => WireData::Soa,
        RData::Unknown(d) => WireData::Unknown(d.to_vec()),
        _ => WireData::Soa,
    }
}

} // verus!
