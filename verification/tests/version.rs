use p2p_handshake::error::{DecodingError, EncodingError};
use p2p_handshake::version::{
    decode_version, encode_version, plain_version, NetworkAddress, VersionMessage,
};

const SAMPLE: [u8; 91] = [
    0x72, 0x11, 0x01, 0x00, 0x01, 0x00, 0x00, 0x00, 0x00, 0x00, 0x00, 0x00, 0x00, 0xf1, 0x53, 0x65,
    0x00, 0x00, 0x00, 0x00, 0x01, 0x00, 0x00, 0x00, 0x00, 0x00, 0x00, 0x00, 0x00, 0x00, 0x00, 0x00,
    0x00, 0x00, 0x00, 0x00, 0x00, 0x00, 0xff, 0xff, 0x7f, 0x00, 0x00, 0x01, 0x20, 0x8d, 0x00, 0x00,
    0x00, 0x00, 0x00, 0x00, 0x00, 0x00, 0x00, 0x00, 0x00, 0x00, 0x00, 0x00, 0x00, 0x00, 0x00, 0x00,
    0x00, 0x00, 0x00, 0x00, 0x00, 0x00, 0x00, 0x00, 0x08, 0x07, 0x06, 0x05, 0x04, 0x03, 0x02, 0x01,
    0x05, 0x2f, 0x78, 0x3a, 0x31, 0x2f, 0xfe, 0xff, 0xff, 0xff, 0x01,
];

fn loopback() -> NetworkAddress {
    NetworkAddress {
        ip: [0, 0, 0, 0, 0, 0, 0, 0, 0, 0, 0xff, 0xff, 127, 0, 0, 1],
        services: 1,
        port: 8333,
    }
}

fn unset() -> NetworkAddress {
    NetworkAddress { ip: [0; 16], services: 0, port: 0 }
}

fn sample() -> VersionMessage {
    VersionMessage {
        version: 70002,
        services: 1,
        timestamp: 1_700_000_000,
        addr_recv: loopback(),
        addr_from: unset(),
        nonce: 0x0102_0304_0506_0708,
        user_agent: "/x:1/".to_string(),
        start_height: -2,
        relay: true,
    }
}

#[test]
fn address_layout_is_services_ip_port() {
    assert_eq!(
        loopback().to_bytes(),
        vec![
            0x01, 0x00, 0x00, 0x00, 0x00, 0x00, 0x00, 0x00, 0x00, 0x00, 0x00, 0x00, 0x00, 0x00,
            0x00, 0x00, 0x00, 0x00, 0xff, 0xff, 0x7f, 0x00, 0x00, 0x01, 0x20, 0x8d,
        ]
    );
    assert_eq!(unset().to_bytes(), vec![0u8; 26]);
}

#[test]
fn address_reads_back() {
    let bytes = loopback().to_bytes();
    assert_eq!(NetworkAddress::from_bytes(&bytes), Ok(loopback()));
    let mut longer = bytes.clone();
    longer.push(0x55);
    assert_eq!(NetworkAddress::from_bytes(&longer), Ok(loopback()));
}

#[test]
fn short_address_is_truncated() {
    let bytes = loopback().to_bytes();
    assert_eq!(NetworkAddress::from_bytes(&bytes[..25]), Err(DecodingError::Truncated));
    assert_eq!(NetworkAddress::from_bytes(&[]), Err(DecodingError::Truncated));
}

#[test]
fn version_layout_is_bit_exact() {
    assert_eq!(sample().to_bytes(), Ok(SAMPLE.to_vec()));
    assert_eq!(encode_version(&sample()), Ok(SAMPLE.to_vec()));
}

#[test]
fn version_with_empty_user_agent_has_86_bytes() {
    let m = VersionMessage {
        version: 70002,
        services: 1,
        timestamp: 0,
        addr_recv: unset(),
        addr_from: unset(),
        nonce: 0,
        user_agent: String::new(),
        start_height: 0,
        relay: false,
    };
    let bytes = m.to_bytes().unwrap();
    assert_eq!(bytes.len(), 86);
    assert_eq!(&bytes[..4], &[0x72, 0x11, 0x01, 0x00]);
    assert_eq!(bytes[4], 1);
    assert!(bytes[5..].iter().all(|b| *b == 0));
}

#[test]
fn version_decodes_from_sample_bytes() {
    assert_eq!(decode_version(&SAMPLE), Ok(sample()));
}

#[test]
fn version_round_trips() {
    let mut m = sample();
    m.user_agent = "/Satoshi:25.0.0/ \u{00e9}\u{4e2d}".to_string();
    m.version = -1;
    m.timestamp = i64::MIN;
    m.services = u64::MAX;
    m.nonce = u64::MAX;
    m.start_height = i32::MAX;
    m.relay = false;
    m.addr_from = NetworkAddress {
        ip: [1, 2, 3, 4, 5, 6, 7, 8, 9, 10, 11, 12, 13, 14, 15, 16],
        services: 0x8000_0000_0000_0001,
        port: 0xfffe,
    };
    let bytes = encode_version(&m).unwrap();
    assert_eq!(decode_version(&bytes), Ok(m));
}

#[test]
fn user_agent_of_255_bytes_is_the_longest() {
    let mut m = sample();
    m.user_agent = "a".repeat(255);
    let bytes = encode_version(&m).unwrap();
    assert_eq!(bytes.len(), 86 + 255);
    assert_eq!(bytes[80], 255);
    assert_eq!(decode_version(&bytes), Ok(m));
}

#[test]
fn user_agent_of_256_bytes_is_rejected() {
    let mut m = sample();
    m.user_agent = "a".repeat(256);
    assert_eq!(encode_version(&m), Err(EncodingError::UserAgentTooLong));
    assert_eq!(m.to_bytes(), Err(EncodingError::UserAgentTooLong));
    // 128 characters of two bytes each
    m.user_agent = "\u{00e9}".repeat(128);
    assert_eq!(encode_version(&m), Err(EncodingError::UserAgentTooLong));
}

#[test]
fn short_payload_is_truncated() {
    assert_eq!(decode_version(&[]), Err(DecodingError::Truncated));
    assert_eq!(decode_version(&SAMPLE[..85]), Err(DecodingError::Truncated));
}

#[test]
fn user_agent_longer_than_the_rest_is_truncated() {
    assert_eq!(decode_version(&SAMPLE[..90]), Err(DecodingError::Truncated));
    let mut bytes = SAMPLE.to_vec();
    bytes[80] = 6;
    assert_eq!(decode_version(&bytes), Err(DecodingError::Truncated));
}

#[test]
fn user_agent_that_is_not_utf8_is_rejected() {
    let mut bytes = SAMPLE.to_vec();
    bytes[81] = 0xff;
    assert_eq!(decode_version(&bytes), Err(DecodingError::BadUserAgent));
}

#[test]
fn bytes_after_the_relay_flag_are_not_read() {
    let mut bytes = SAMPLE.to_vec();
    bytes.extend_from_slice(&[9, 9, 9]);
    assert_eq!(decode_version(&bytes), Ok(sample()));
}

#[test]
fn any_non_zero_relay_byte_is_true() {
    let mut bytes = SAMPLE.to_vec();
    bytes[90] = 0x80;
    assert_eq!(decode_version(&bytes), Ok(sample()));
    bytes[90] = 0;
    let mut quiet = sample();
    quiet.relay = false;
    assert_eq!(decode_version(&bytes), Ok(quiet));
}

#[test]
fn ipv4_address_is_held_as_mapped_ipv6() {
    let a = NetworkAddress::from_ipv4([127, 0, 0, 1], 8333, 1);
    assert_eq!(a, loopback());
    let b = NetworkAddress::from_ipv4([192, 168, 1, 20], 18333, 0);
    assert_eq!(b.ip, [0, 0, 0, 0, 0, 0, 0, 0, 0, 0, 0xff, 0xff, 192, 168, 1, 20]);
    assert_eq!(b.port, 18333);
    assert_eq!(b.services, 0);
}

#[test]
fn plain_version_tells_only_what_it_is_given() {
    let m = plain_version(70002, 1, 1_700_000_000, 5);
    assert_eq!(
        m,
        VersionMessage {
            version: 70002,
            services: 1,
            timestamp: 1_700_000_000,
            addr_recv: unset(),
            addr_from: unset(),
            nonce: 5,
            user_agent: String::new(),
            start_height: 0,
            relay: false,
        }
    );
    assert_eq!(m.to_bytes().unwrap().len(), 86);
}
