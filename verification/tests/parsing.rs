use nvme::transport::{OwnedTransportIdentifier, ParseError, TransportType};

#[test]
fn parse_pcie_identifier() {
    let tid = OwnedTransportIdentifier::from_str("trtype:PCIe traddr:0000:01:00.0").unwrap();
    assert_eq!(tid.transport_type(), TransportType::Pcie);
    assert_eq!(tid.address(), "0000:01:00.0");
}

#[test]
fn parse_tcp_identifier() {
    let tid = OwnedTransportIdentifier::from_str("trtype:TCP traddr:192.168.0.17").unwrap();
    assert_eq!(tid.transport_type(), TransportType::Tcp);
    assert_eq!(tid.address(), "192.168.0.17");
}

#[test]
fn parse_rdma_identifier() {
    let tid = OwnedTransportIdentifier::from_str("trtype:RDMA traddr:10.0.0.9").unwrap();
    assert_eq!(tid.transport_type(), TransportType::Rdma);
    assert_eq!(tid.address(), "10.0.0.9");
}

#[test]
fn parse_rejects_missing_prefix() {
    assert_eq!(
        OwnedTransportIdentifier::from_str("PCIe traddr:0000:01:00.0").err(),
        Some(ParseError)
    );
    assert_eq!(OwnedTransportIdentifier::from_str("").err(), Some(ParseError));
    assert_eq!(
        OwnedTransportIdentifier::from_str("trtype PCIe traddr:x").err(),
        Some(ParseError)
    );
}

#[test]
fn parse_rejects_unknown_transport() {
    assert!(OwnedTransportIdentifier::from_str("trtype:FC traddr:0000:01:00.0").is_err());
    assert!(OwnedTransportIdentifier::from_str("trtype:pcie traddr:0000:01:00.0").is_err());
}

#[test]
fn parse_rejects_missing_traddr() {
    assert!(OwnedTransportIdentifier::from_str("trtype:PCIe").is_err());
    assert!(OwnedTransportIdentifier::from_str("trtype:PCIe addr:x").is_err());
}

#[test]
fn parse_rejects_empty_address() {
    assert!(OwnedTransportIdentifier::from_str("trtype:PCIe traddr:").is_err());
}

#[test]
fn parse_rejects_space_in_address() {
    assert!(OwnedTransportIdentifier::from_str("trtype:PCIe traddr:00 00").is_err());
}
