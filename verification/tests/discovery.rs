use lucia::common::LuciaError;
use lucia::discovery::{
    discovery_result, discovery_step, first_address, to_ip_addr, BridgeAddress, DiscoveryEvent,
    DiscoveryStep, RecordKind, SERVICE_NAME,
};

#[test]
fn no_response_before_the_deadline_finds_nothing() {
    assert_eq!(discovery_step(&DiscoveryEvent::Deadline), DiscoveryStep::NotFound);
    assert_eq!(discovery_result(DiscoveryStep::NotFound), Some(Ok(None)));
}

#[test]
fn query_that_cannot_be_issued_fails_discovery() {
    assert_eq!(discovery_step(&DiscoveryEvent::QueryFailed), DiscoveryStep::Failed);
    assert_eq!(
        discovery_result(DiscoveryStep::Failed),
        Some(Err(LuciaError::MulticastDnsFailure))
    );
}

#[test]
fn discovery_has_no_result_while_it_listens() {
    assert_eq!(discovery_result(DiscoveryStep::Listen), None);
    let address = BridgeAddress::V4([10, 0, 0, 2]);
    assert_eq!(discovery_result(DiscoveryStep::Found(address)), Some(Ok(Some(address))));
}

#[test]
fn response_without_an_address_is_passed_over() {
    assert_eq!(discovery_step(&DiscoveryEvent::Response(vec![])), DiscoveryStep::Listen);
    assert_eq!(
        discovery_step(&DiscoveryEvent::Response(vec![RecordKind::Other, RecordKind::Other])),
        DiscoveryStep::Listen
    );
    assert_eq!(discovery_step(&DiscoveryEvent::Unreadable), DiscoveryStep::Listen);
}

#[test]
fn first_address_of_a_response_is_taken() {
    let records = vec![
        RecordKind::Other,
        RecordKind::AAAA([0xfe80, 0, 0, 0, 0, 0, 0, 1]),
        RecordKind::A([192, 168, 1, 20]),
    ];
    assert_eq!(first_address(&records), Some(BridgeAddress::V6([0xfe80, 0, 0, 0, 0, 0, 0, 1])));
    assert_eq!(
        discovery_step(&DiscoveryEvent::Response(records)),
        DiscoveryStep::Found(BridgeAddress::V6([0xfe80, 0, 0, 0, 0, 0, 0, 1]))
    );
    let records = vec![RecordKind::A([10, 0, 0, 2]), RecordKind::A([10, 0, 0, 3])];
    assert_eq!(first_address(&records), Some(BridgeAddress::V4([10, 0, 0, 2])));
    assert_eq!(first_address(&vec![]), None);
    assert_eq!(first_address(&vec![RecordKind::Other]), None);
}

#[test]
fn address_records_carry_an_address() {
    assert_eq!(to_ip_addr(&RecordKind::A([1, 2, 3, 4])), Some(BridgeAddress::V4([1, 2, 3, 4])));
    assert_eq!(
        to_ip_addr(&RecordKind::AAAA([1, 2, 3, 4, 5, 6, 7, 8])),
        Some(BridgeAddress::V6([1, 2, 3, 4, 5, 6, 7, 8]))
    );
    assert_eq!(to_ip_addr(&RecordKind::Other), None);
}

#[test]
fn address_is_written_as_a_host() {
    assert_eq!(BridgeAddress::V4([192, 168, 1, 20]).host(), "192.168.1.20");
    assert_eq!(BridgeAddress::V4([0, 9, 10, 255]).host(), "0.9.10.255");
    assert_eq!(BridgeAddress::V6([0, 0, 0, 0, 0, 0, 0, 1]).host(), "[0:0:0:0:0:0:0:1]");
    assert_eq!(
        BridgeAddress::V6([0x2001, 0xdb8, 0xffff, 0x10, 0xa, 0, 0xabcd, 0x1234]).host(),
        "[2001:db8:ffff:10:a:0:abcd:1234]"
    );
}

#[test]
fn bridges_answer_to_the_hue_service() {
    assert_eq!(SERVICE_NAME, "_hue._tcp.local");
}
