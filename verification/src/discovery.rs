//! Finding the bridge among the answers to a multicast-DNS query.

use crate::common::LuciaError;
use crate::text::{decimal, hexadecimal, push_decimal, push_hexadecimal};
use vstd::prelude::*;
use vstd::string::*;

verus! {

/// The service name that bridges answer to.
pub const SERVICE_NAME: &'static str = "_hue._tcp.local";

/// The network address of a bridge.
#[derive(Clone, Copy, Debug, PartialEq, Eq)]
pub enum BridgeAddress {
    /// The four octets of an IPv4 address.
    V4([u8; 4]),
    /// The eight segments of an IPv6 address.
    V6([u16; 8]),
}

/// What a DNS record holds, as far as discovery reads it.
#[derive(Clone, Copy, Debug, PartialEq, Eq)]
pub enum RecordKind {
    /// An IPv4 address record.
    A([u8; 4]),
    /// An IPv6 address record.
    AAAA([u16; 8]),
    /// A record of any other kind.
    Other,
}

/// What the listener reports while discovery runs.
#[derive(Clone, Debug, PartialEq, Eq)]
pub enum DiscoveryEvent {
    /// The query could not be issued.
    QueryFailed,
    /// A response arrived, with these records in its order.
    Response(Vec<RecordKind>),
    /// Something arrived that could not be read as a response.
    Unreadable,
    /// The timeout elapsed.
    Deadline,
}

/// What discovery does next.
#[derive(Clone, Copy, Debug, PartialEq, Eq)]
pub enum DiscoveryStep {
    /// Keep listening.
    Listen,
    /// Stop: a bridge answered from this address.
    Found(BridgeAddress),
    /// Stop: no bridge answered in time.
    NotFound,
    /// Stop: there was no query to answer.
    Failed,
}

impl BridgeAddress {
    /// The address as the host of a URL: dotted decimal for IPv4, the eight
    /// segments in hexadecimal between square brackets for IPv6.
    pub open spec fn spec_host(self) -> Seq<char> {
        match self {
            BridgeAddress::V4(octets) => decimal(octets@[0] as nat) + "."@ + decimal(
                octets@[1] as nat,
            ) + "."@ + decimal(octets@[2] as nat) + "."@ + decimal(octets@[3] as nat),
            BridgeAddress::V6(segments) => "["@ + hexadecimal(segments@[0] as nat) + ":"@
                + hexadecimal(segments@[1] as nat) + ":"@ + hexadecimal(segments@[2] as nat) + ":"@
                + hexadecimal(segments@[3] as nat) + ":"@ + hexadecimal(segments@[4] as nat) + ":"@
                + hexadecimal(segments@[5] as nat) + ":"@ + hexadecimal(segments@[6] as nat) + ":"@
                + hexadecimal(segments@[7] as nat) + "]"@,
        }
    }

    /// Writes the address as the host of a URL.
    pub fn host(&self) -> (text: String)
        ensures
            text@ == self.spec_host(),
    {
        let mut text = String::new();
        match self {
            BridgeAddress::V4(octets) => {
                push_decimal(&mut text, octets[0] as u64);
                text.append(".");
                push_decimal(&mut text, octets[1] as u64);
                text.append(".");
                push_decimal(&mut text, octets[2] as u64);
                text.append(".");
                push_decimal(&mut text, octets[3] as u64);
                assert(text@ =~= self.spec_host());
            },
            BridgeAddress::V6(segments) => {
                text.append("[");
                push_hexadecimal(&mut text, segments[0] as u64);
                text.append(":");
                push_hexadecimal(&mut text, segments[1] as u64);
                text.append(":");
                push_hexadecimal(&mut text, segments[2] as u64);
                text.append(":");
                push_hexadecimal(&mut text, segments[3] as u64);
                text.append(":");
                push_hexadecimal(&mut text, segments[4] as u64);
                text.append(":");
                push_hexadecimal(&mut text, segments[5] as u64);
                text.append(":");
                push_hexadecimal(&mut text, segments[6] as u64);
                text.append(":");
                push_hexadecimal(&mut text, segments[7] as u64);
                text.append("]");
                assert(text@ =~= self.spec_host());
            },
        }
        text
    }
}

/// The address that a record carries, if it is an address record.
pub open spec fn spec_to_ip_addr(kind: RecordKind) -> Option<BridgeAddress> {
    match kind {
        RecordKind::A(octets) => Some(BridgeAddress::V4(octets)),
        RecordKind::AAAA(segments) => Some(BridgeAddress::V6(segments)),
        RecordKind::Other => None,
    }
}

/// The address of the first address record among the records.
pub open spec fn spec_first_address(records: Seq<RecordKind>) -> Option<BridgeAddress>
    decreases records.len(),
{
    if records.len() == 0 {
        None
    } else if spec_to_ip_addr(records[0]) is Some {
        spec_to_ip_addr(records[0])
    } else {
        spec_first_address(records.drop_first())
    }
}

/// `spec_first_address` picks the address of the first record that carries
/// one, and finds none only where no record carries one.
pub proof fn lemma_first_address_is_first(records: Seq<RecordKind>)
    ensures
        match spec_first_address(records) {
            Some(address) => exists|i: int|
                0 <= i < records.len() && spec_to_ip_addr(#[trigger] records[i]) == Some(address)
                    && forall|j: int| 0 <= j < i ==> spec_to_ip_addr(#[trigger] records[j]) is None,
            None => forall|i: int|
                0 <= i < records.len() ==> spec_to_ip_addr(#[trigger] records[i]) is None,
        },
    decreases records.len(),
{
    if records.len() > 0 && spec_to_ip_addr(records[0]) is None {
        let rest = records.drop_first();
        lemma_first_address_is_first(rest);
        match spec_first_address(rest) {
            Some(address) => {
                let i = choose|i: int|
                    0 <= i < rest.len() && spec_to_ip_addr(#[trigger] rest[i]) == Some(address)
                        && forall|j: int|
                        0 <= j < i ==> spec_to_ip_addr(#[trigger] rest[j]) is None;
                assert(records[i + 1] == rest[i]);
                assert forall|j: int| 0 <= j < i + 1 implies spec_to_ip_addr(
                    #[trigger] records[j],
                ) is None by {
                    if j > 0 {
                        assert(records[j] == rest[j - 1]);
                    }
                }
            },
            None => {
                assert forall|i: int| 0 <= i < records.len() implies spec_to_ip_addr(
                    #[trigger] records[i],
                ) is None by {
                    if i > 0 {
                        assert(records[i] == rest[i - 1]);
                    }
                }
            },
        }
    } else if records.len() > 0 {
        assert(spec_to_ip_addr(records[0]) == spec_first_address(records));
    }
}

/// What discovery does on an event.
pub open spec fn spec_discovery_step(event: DiscoveryEvent) -> DiscoveryStep {
    match event {
        DiscoveryEvent::Response(records) => match spec_first_address(records@) {
            Some(address) => DiscoveryStep::Found(address),
            None => DiscoveryStep::Listen,
        },
        DiscoveryEvent::Unreadable => DiscoveryStep::Listen,
        DiscoveryEvent::Deadline => DiscoveryStep::NotFound,
        DiscoveryEvent::QueryFailed => DiscoveryStep::Failed,
    }
}

/// What discovery came to: nothing while it listens, no address where none
/// was found in time, and an error where the query could not be issued.
pub open spec fn spec_discovery_result(step: DiscoveryStep) -> Option<
    Result<Option<BridgeAddress>, LuciaError>,
> {
    match step {
        DiscoveryStep::Listen => None,
        DiscoveryStep::Found(address) => Some(Ok(Some(address))),
        DiscoveryStep::NotFound => Some(Ok(None)),
        DiscoveryStep::Failed => Some(Err(LuciaError::MulticastDnsFailure)),
    }
}

/// The address that a record carries, if it is an address record.
pub fn to_ip_addr(kind: &RecordKind) -> (address: Option<BridgeAddress>)
    ensures
        address == spec_to_ip_addr(*kind),
{
    match kind {
        RecordKind::A(octets) => Some(BridgeAddress::V4(*octets)),
        RecordKind::AAAA(segments) => Some(BridgeAddress::V6(*segments)),
        RecordKind::Other => None,
    }
}

/// The first address among the records of a response.
pub fn first_address(records: &Vec<RecordKind>) -> (address: Option<BridgeAddress>)
    ensures
        address == spec_first_address(records@),
{
    let mut i: usize = 0;
    assert(records@.skip(0) =~= records@);
    while i < records.len()
        invariant
            i <= records@.len(),
            spec_first_address(records@) == spec_first_address(records@.skip(i as int)),
        decreases records@.len() - i,
    {
        let found = to_ip_addr(&records[i]);
        proof {
            assert(records@.skip(i as int)[0] == records@[i as int]);
            assert(records@.skip(i as int).drop_first() =~= records@.skip(i + 1));
        }
        if found.is_some() {
            return found;
        }
        i += 1;
    }
    None
}

/// Decides what discovery does on an event: it stops at the first response
/// that carries an address, passes over anything else, gives up at the
/// deadline, and fails where the query could not be issued.
pub fn discovery_step(event: &DiscoveryEvent) -> (step: DiscoveryStep)
    ensures
        step == spec_discovery_step(*event),
{
    match event {
        DiscoveryEvent::Response(records) => match first_address(records) {
            Some(address) => DiscoveryStep::Found(address),
            None => DiscoveryStep::Listen,
        },
        DiscoveryEvent::Unreadable => DiscoveryStep::Listen,
        DiscoveryEvent::Deadline => DiscoveryStep::NotFound,
        DiscoveryEvent::QueryFailed => DiscoveryStep::Failed,
    }
}

/// What discovery came to.
pub fn discovery_result(step: DiscoveryStep) -> (result: Option<
    Result<Option<BridgeAddress>, LuciaError>,
>)
    ensures
        result == spec_discovery_result(step),
{
    match step {
        DiscoveryStep::Listen => None,
        DiscoveryStep::Found(address) => Some(Ok(Some(address))),
        DiscoveryStep::NotFound => Some(Ok(None)),
        DiscoveryStep::Failed => Some(Err(LuciaError::MulticastDnsFailure)),
    }
}

} // verus!
