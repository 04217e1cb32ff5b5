use lucia::common::LuciaError;

#[test]
fn every_error_has_its_message() {
    assert_eq!(LuciaError::MulticastDnsFailure.message(), "failure to resolve mdns query");
    assert_eq!(LuciaError::HttpFailure.message(), "http request failure");
    assert_eq!(LuciaError::AddrParseError.message(), "invalid address");
    assert_eq!(LuciaError::IoError.message(), "io error");
    assert_eq!(LuciaError::PollingTimeout.message(), "polling time exceeded");
    assert_eq!(LuciaError::JsonError.message(), "unable to load/store json data");
    assert_eq!(LuciaError::MissingConfiguration.message(), "missing bridge address or user name");
    assert_eq!(LuciaError::ValueOutOfRange.message(), "value out of range");
}
