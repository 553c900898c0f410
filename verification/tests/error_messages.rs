use lib::coap::CoapError;
use lib::dhcp::{DhcpError, DhcpMessageType};
use lib::dhcpv6::Dhcpv6Error;
use lib::diameter::DiameterError;
use lib::dns::DnsError;

#[test]
fn coap_error_messages() {
    assert_eq!(CoapError::PacketTooShort(3).to_string(), "CoAP packet too short (3 bytes)");
    assert_eq!(CoapError::InvalidVersion(2).to_string(), "Invalid CoAP version: 2");
    assert_eq!(CoapError::InvalidTokenLength(12).to_string(), "Invalid CoAP token length: 12 (max 8)");
    assert_eq!(
        CoapError::EmptyPayloadMarker.to_string(),
        "CoAP payload marker must be followed by payload data"
    );
    assert_eq!(CoapError::OptionNumberOverflow.to_string(), "CoAP option number exceeds 16-bit range");
    assert_eq!(CoapError::InvalidOptionEncoding.to_string(), "Malformed CoAP option delta/length");
}

#[test]
fn dhcp_message_type_names() {
    assert_eq!(DhcpMessageType::Discover.to_string(), "DHCP Discover (1)");
    assert_eq!(DhcpMessageType::Offer.to_string(), "DHCP Offer (2)");
    assert_eq!(DhcpMessageType::Request.to_string(), "DHCP Request (3)");
    assert_eq!(DhcpMessageType::Ack.to_string(), "DHCP ACK (5)");
    assert_eq!(DhcpMessageType::Nak.to_string(), "DHCP NAK (6)");
    assert_eq!(DhcpMessageType::Release.to_string(), "DHCP Release (7)");
    assert_eq!(DhcpMessageType::Unknown(200).to_string(), "DHCP Type (200)");
}

#[test]
fn dhcp_error_messages() {
    assert_eq!(DhcpError::PacketTooShort(0).to_string(), "DHCP packet too short (0 bytes, min 240)");
    assert_eq!(DhcpError::InvalidMagicCookie.to_string(), "Invalid DHCP magic cookie");
    assert_eq!(DhcpError::InvalidOptionLength.to_string(), "Invalid DHCP option length");
}

#[test]
fn dhcpv6_error_messages() {
    assert_eq!(Dhcpv6Error::PacketTooShort(2).to_string(), "DHCPv6 message too short (2 bytes)");
    assert_eq!(Dhcpv6Error::InvalidLength.to_string(), "Invalid DHCPv6 option length");
}

#[test]
fn diameter_error_messages() {
    assert_eq!(DiameterError::PacketTooShort(19).to_string(), "Diameter message too short (19 bytes)");
    assert_eq!(DiameterError::UnsupportedVersion(2).to_string(), "Unsupported Diameter version: 2");
    assert_eq!(DiameterError::InvalidLength.to_string(), "Invalid Diameter message length");
}

#[test]
fn dns_error_messages() {
    assert_eq!(DnsError::PacketTooShort(11).to_string(), "DNS packet too short (11 bytes, min 12)");
    assert_eq!(
        DnsError::InvalidLabel("a..b".to_string()).to_string(),
        "Invalid DNS label format: a..b"
    );
    assert_eq!(
        DnsError::InvalidCompressionPointer(4096).to_string(),
        "DNS compression pointer 4096 is outside the packet"
    );
    assert_eq!(DnsError::CompressionLoop.to_string(), "DNS compression pointer loop detected");
    assert_eq!(DnsError::ReservedLabelType(0x40).to_string(), "Reserved DNS label type 0x40");
    assert_eq!(DnsError::ReservedLabelType(0x0b).to_string(), "Reserved DNS label type 0x0b");
    assert_eq!(DnsError::NameTooLong.to_string(), "Expanded DNS name exceeds 255 octets");
    assert_eq!(DnsError::UnsupportedFormat.to_string(), "Unsupported DNS record format");
}
