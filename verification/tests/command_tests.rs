use ledger_wallet::address::Address;
use ledger_wallet::command::{
    address_request, chunk_requests, derivation_path, parse_address, parse_app_version,
    sign_command, sign_requests, version_request, Apdu, AppVersion, KeyPath, SignKind,
};
use ledger_wallet::error::Error;
use ledger_wallet::signature::{parse_signature, Signature};

const ETH_PATH: [u8; 17] = [4, 0x80, 0, 0, 44, 0x80, 0, 0, 60, 0x80, 0, 0, 0, 0, 0, 0, 0];
const ETC_PATH: [u8; 21] =
    [5, 0x80, 0, 0, 44, 0x80, 0, 0, 60, 0x80, 0x02, 0x73, 0xd0, 0x80, 0, 0, 0, 0, 0, 0, 0];

fn sample(len: usize) -> Vec<u8> {
    (0..len).map(|i| (i * 13 + 5) as u8).collect()
}

fn address_response(text: &[u8]) -> Vec<u8> {
    let mut response = vec![65u8];
    response.extend_from_slice(&[0x04; 65]);
    response.push(40);
    response.extend_from_slice(text);
    response
}

#[test]
fn derivation_paths_are_fixed() {
    assert_eq!(derivation_path(KeyPath::Ethereum), ETH_PATH.to_vec());
    assert_eq!(derivation_path(KeyPath::EthereumClassic), ETC_PATH.to_vec());
}

#[test]
fn version_request_has_no_data() {
    assert_eq!(version_request(), Apdu { command: 0x06, p1: 0, p2: 0, data: vec![] });
}

#[test]
fn address_request_carries_the_path() {
    assert_eq!(
        address_request(KeyPath::Ethereum),
        Apdu { command: 0x02, p1: 0, p2: 0, data: ETH_PATH.to_vec() }
    );
    assert_eq!(
        address_request(KeyPath::EthereumClassic),
        Apdu { command: 0x02, p1: 0, p2: 0, data: ETC_PATH.to_vec() }
    );
}

#[test]
fn sign_commands() {
    assert_eq!(sign_command(SignKind::Message), 0x08);
    assert_eq!(sign_command(SignKind::Transaction), 0x04);
}

#[test]
fn version_1_0_3_is_accepted() {
    assert_eq!(
        parse_app_version(&[0, 1, 0, 3]),
        Ok(AppVersion { flags: 0, major: 1, minor: 0, patch: 3 })
    );
}

#[test]
fn version_1_0_2_is_too_old() {
    assert_eq!(
        parse_app_version(&[0, 1, 0, 2]),
        Err(Error::Protocol("App version 1.0.3 is required."))
    );
}

#[test]
fn version_order() {
    let too_old = Err(Error::Protocol("App version 1.0.3 is required."));
    assert_eq!(parse_app_version(&[0, 0, 9, 9]), too_old);
    assert_eq!(parse_app_version(&[0, 0, 255, 255]), too_old);
    assert_eq!(parse_app_version(&[0, 1, 0, 0]), too_old);
    assert_eq!(
        parse_app_version(&[1, 1, 1, 0]),
        Ok(AppVersion { flags: 1, major: 1, minor: 1, patch: 0 })
    );
    assert_eq!(
        parse_app_version(&[0, 2, 0, 0]),
        Ok(AppVersion { flags: 0, major: 2, minor: 0, patch: 0 })
    );
    assert_eq!(
        parse_app_version(&[7, 1, 0, 4]),
        Ok(AppVersion { flags: 7, major: 1, minor: 0, patch: 4 })
    );
}

#[test]
fn version_response_must_have_four_bytes() {
    let mismatch = Err(Error::Protocol("Version packet size mismatch"));
    assert_eq!(parse_app_version(&[]), mismatch);
    assert_eq!(parse_app_version(&[0, 1, 0]), mismatch);
    assert_eq!(parse_app_version(&[0, 1, 0, 3, 0]), mismatch);
}

#[test]
fn address_is_read_from_hex_text() {
    let response = address_response(b"a6ca2e6707f2cc189794a9dd459d5b05ed1bcd1c");
    assert_eq!(response.len(), 107);
    assert_eq!(
        parse_address(&response),
        Ok(Address([
            0xa6, 0xca, 0x2e, 0x67, 0x07, 0xf2, 0xcc, 0x18, 0x97, 0x94, 0xa9, 0xdd, 0x45, 0x9d,
            0x5b, 0x05, 0xed, 0x1b, 0xcd, 0x1c,
        ]))
    );
}

#[test]
fn address_text_may_be_upper_case() {
    let response = address_response(b"A6CA2E6707F2CC189794A9DD459D5B05ED1BCD1C");
    assert_eq!(
        parse_address(&response),
        Ok(Address([
            0xa6, 0xca, 0x2e, 0x67, 0x07, 0xf2, 0xcc, 0x18, 0x97, 0x94, 0xa9, 0xdd, 0x45, 0x9d,
            0x5b, 0x05, 0xed, 0x1b, 0xcd, 0x1c,
        ]))
    );
    let mixed = address_response(b"00112233445566778899aAbBcCdDeEfF00010203");
    assert_eq!(
        parse_address(&mixed),
        Ok(Address([
            0x00, 0x11, 0x22, 0x33, 0x44, 0x55, 0x66, 0x77, 0x88, 0x99, 0xaa, 0xbb, 0xcc, 0xdd,
            0xee, 0xff, 0x00, 0x01, 0x02, 0x03,
        ]))
    );
}

#[test]
fn address_response_must_have_107_bytes() {
    let mismatch = Err(Error::Protocol("Key packet size mismatch"));
    let response = address_response(b"a6ca2e6707f2cc189794a9dd459d5b05ed1bcd1c");
    assert_eq!(parse_address(&response[..106]), mismatch);
    let mut longer = response.clone();
    longer.push(b'0');
    assert_eq!(parse_address(&longer), mismatch);
    assert_eq!(parse_address(&[]), mismatch);
}

#[test]
fn address_text_must_be_hex_digits() {
    let invalid = Err(Error::Protocol("Invalid address string"));
    assert_eq!(
        parse_address(&address_response(b"g6ca2e6707f2cc189794a9dd459d5b05ed1bcd1c")),
        invalid
    );
    assert_eq!(
        parse_address(&address_response(b"a6ca2e6707f2cc189794a9dd459d5b05ed1bcd1/")),
        invalid
    );
    assert_eq!(
        parse_address(&address_response(b"a6ca2e6707f2cc189794:9dd459d5b05ed1bcd1c")),
        invalid
    );
    // Forty bytes leave no room for a prefix or for blanks beside the digits.
    assert_eq!(
        parse_address(&address_response(b"0xa6ca2e6707f2cc189794a9dd459d5b05ed1bcd")),
        invalid
    );
    assert_eq!(
        parse_address(&address_response(b"a6ca2e6707f2cc189794 a9dd459d5b05ed1bcd1")),
        invalid
    );
    assert_eq!(
        parse_address(&address_response(b" a6ca2e6707f2cc189794a9dd459d5b05ed1bcd\n")),
        invalid
    );
    assert_eq!(parse_address(&address_response(&[0u8; 40])), invalid);
}

#[test]
fn address_text_must_be_utf8() {
    let invalid = Err(Error::Protocol("Invalid address string"));
    let mut text = b"a6ca2e6707f2cc189794a9dd459d5b05ed1bcd1c".to_vec();
    text[7] = 0xff;
    assert_eq!(parse_address(&address_response(&text)), invalid);
    // Well-formed UTF-8 that is not ASCII.
    let mut text = b"a6ca2e6707f2cc189794a9dd459d5b05ed1bcd1c".to_vec();
    text[10] = 0xc3;
    text[11] = 0xa9;
    assert_eq!(parse_address(&address_response(&text)), invalid);
}

fn check_chunks(command: u8, path: &[u8], payload: &[u8]) -> Vec<Apdu> {
    let requests = chunk_requests(command, path, payload);
    let part = 255 - path.len();
    let mut joined = Vec::new();
    for (i, request) in requests.iter().enumerate() {
        assert_eq!(request.command, command);
        assert_eq!(request.p2, 0);
        assert!(request.data.len() <= 255);
        let share = if i == 0 {
            assert_eq!(request.p1, 0x00);
            assert_eq!(&request.data[..path.len()], path);
            assert_eq!(request.data.len(), path.len() + part.min(payload.len()));
            &request.data[path.len()..]
        } else {
            assert_eq!(request.p1, 0x80);
            &request.data[..]
        };
        assert!(!share.is_empty());
        assert!(share.len() <= part);
        if i + 1 < requests.len() {
            assert_eq!(share.len(), part);
        }
        joined.extend_from_slice(share);
    }
    assert_eq!(joined, payload);
    assert_eq!(requests.len(), (payload.len() + part - 1) / part);
    requests
}

#[test]
fn empty_payload_has_no_chunks() {
    assert!(chunk_requests(0x04, &ETH_PATH, &[]).is_empty());
    assert!(sign_requests(SignKind::Message, KeyPath::EthereumClassic, &[]).is_empty());
}

#[test]
fn small_payload_is_one_chunk() {
    let payload = sample(44);
    let requests = check_chunks(0x04, &ETH_PATH, &payload);
    assert_eq!(requests.len(), 1);
    let mut data = ETH_PATH.to_vec();
    data.extend_from_slice(&payload);
    assert_eq!(requests[0], Apdu { command: 0x04, p1: 0x00, p2: 0x00, data });
}

#[test]
fn first_chunk_is_filled_before_a_second_starts() {
    assert_eq!(check_chunks(0x04, &ETH_PATH, &sample(238)).len(), 1);
    let requests = check_chunks(0x04, &ETH_PATH, &sample(239));
    assert_eq!(requests.len(), 2);
    assert_eq!(requests[0].data.len(), 255);
    assert_eq!(requests[1], Apdu { command: 0x04, p1: 0x80, p2: 0x00, data: sample(239)[238..].to_vec() });
}

#[test]
fn later_chunks_carry_payload_alone() {
    let payload = sample(600);
    let requests = check_chunks(0x04, &ETH_PATH, &payload);
    assert_eq!(requests.len(), 3);
    let mut first = ETH_PATH.to_vec();
    first.extend_from_slice(&payload[..238]);
    assert_eq!(requests[0], Apdu { command: 0x04, p1: 0x00, p2: 0x00, data: first });
    assert_eq!(requests[1], Apdu { command: 0x04, p1: 0x80, p2: 0x00, data: payload[238..476].to_vec() });
    assert_eq!(requests[2], Apdu { command: 0x04, p1: 0x80, p2: 0x00, data: payload[476..].to_vec() });
}

#[test]
fn chunk_counts() {
    // Path of 17 bytes: 238 bytes of payload a chunk.
    for (len, count) in [
        (1usize, 1usize),
        (238, 1),
        (239, 2),
        (476, 2),
        (477, 3),
        (493, 3),
        (714, 3),
        (715, 4),
        (5000, 22),
    ] {
        assert_eq!(check_chunks(0x08, &ETH_PATH, &sample(len)).len(), count, "length {}", len);
    }
    // Path of 21 bytes: 234 bytes of payload a chunk.
    for (len, count) in [(234usize, 1usize), (235, 2), (468, 2), (469, 3), (5000, 22)] {
        assert_eq!(check_chunks(0x08, &ETC_PATH, &sample(len)).len(), count, "length {}", len);
    }
}

#[test]
fn chunk_count_is_the_payload_over_the_room_rounded_up() {
    for path in [&ETH_PATH[..], &ETC_PATH[..]] {
        let part = 255 - path.len();
        for len in 1..=1500 {
            let requests = chunk_requests(0x04, path, &sample(len));
            assert_eq!(requests.len(), (len + part - 1) / part, "length {}", len);
        }
    }
}

#[test]
fn chunks_with_extreme_paths() {
    let no_path: [u8; 0] = [];
    assert_eq!(check_chunks(0x04, &no_path, &sample(255)).len(), 1);
    assert_eq!(check_chunks(0x04, &no_path, &sample(256)).len(), 2);
    // A path of 254 bytes leaves room for one byte of payload a chunk.
    let long_path = [0x55u8; 254];
    let requests = check_chunks(0x04, &long_path, &sample(3));
    assert_eq!(requests.len(), 3);
    let mut first = long_path.to_vec();
    first.push(sample(3)[0]);
    assert_eq!(requests[0].data, first);
    assert_eq!(requests[1].data, vec![sample(3)[1]]);
    assert_eq!(requests[2].data, vec![sample(3)[2]]);
}

#[test]
fn sign_requests_use_the_path_of_the_mode() {
    let payload = sample(300);
    let message = sign_requests(SignKind::Message, KeyPath::Ethereum, &payload);
    assert_eq!(message, chunk_requests(0x08, &ETH_PATH, &payload));
    let transaction = sign_requests(SignKind::Transaction, KeyPath::EthereumClassic, &payload);
    assert_eq!(transaction, chunk_requests(0x04, &ETC_PATH, &payload));
    assert_eq!(&transaction[0].data[..21], &ETC_PATH);
    assert_eq!(transaction[0].data.len(), 255);
    assert_eq!(transaction[1].data.len(), 300 - 234);
}

fn signature_response(v: u8) -> Vec<u8> {
    let mut response = vec![v];
    response.extend_from_slice(&[0x11; 32]);
    response.extend_from_slice(&[0x22; 32]);
    response
}

#[test]
fn recovery_id_is_corrected() {
    assert_eq!(parse_signature(&signature_response(0)).unwrap().v, 1);
    assert_eq!(parse_signature(&signature_response(1)).unwrap().v, 0);
    assert_eq!(parse_signature(&signature_response(27)).unwrap().v, 0);
    assert_eq!(parse_signature(&signature_response(28)).unwrap().v, 1);
    assert_eq!(parse_signature(&signature_response(255)).unwrap().v, 0);
}

#[test]
fn signature_components() {
    let mut response = vec![1u8];
    response.extend((0..64).map(|i| i as u8 + 100));
    let signature = parse_signature(&response).unwrap();
    let r: Vec<u8> = (100..132).collect();
    let s: Vec<u8> = (132..164).collect();
    assert_eq!(signature.r.to_vec(), r);
    assert_eq!(signature.s.to_vec(), s);
    assert_eq!(signature, Signature::from_rsv(&signature.r, &signature.s, 0));
}

#[test]
fn signature_response_must_have_65_bytes() {
    let mismatch = Err(Error::Protocol("Signature packet size mismatch"));
    assert_eq!(parse_signature(&[]), mismatch);
    assert_eq!(parse_signature(&signature_response(0)[..64]), mismatch);
    let mut longer = signature_response(0);
    longer.push(0);
    assert_eq!(parse_signature(&longer), mismatch);
}
