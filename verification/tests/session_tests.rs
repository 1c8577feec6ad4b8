use ledger_wallet::address::Address;
use ledger_wallet::command::{Apdu, KeyPath, SignKind};
use ledger_wallet::error::Error;
use ledger_wallet::frame::{response_body, Reassembly, ResponseReader};
use ledger_wallet::session::{AddressQuery, QueryAction, SignAction, Signing};
use ledger_wallet::signature::Signature;

const ETH_PATH: [u8; 17] = [4, 0x80, 0, 0, 44, 0x80, 0, 0, 60, 0x80, 0, 0, 0, 0, 0, 0, 0];
const ETC_PATH: [u8; 21] =
    [5, 0x80, 0, 0, 44, 0x80, 0, 0, 60, 0x80, 0x02, 0x73, 0xd0, 0x80, 0, 0, 0, 0, 0, 0, 0];

/// A transport that records what is written and answers from a list.
struct MockTransport {
    written: Vec<Vec<u8>>,
    answers: Vec<Vec<u8>>,
    next_answer: usize,
}

impl MockTransport {
    fn new(answers: Vec<Vec<u8>>) -> MockTransport {
        MockTransport { written: Vec::new(), answers, next_answer: 0 }
    }

    fn packets_of(message: &[u8]) -> Vec<Vec<u8>> {
        let mut packets = Vec::new();
        let mut offset = 0;
        let mut sequence: usize = 0;
        loop {
            let mut packet = vec![0x01, 0x01, 0x05, (sequence >> 8) as u8, (sequence & 0xff) as u8];
            if sequence == 0 {
                packet.push((message.len() >> 8) as u8);
                packet.push((message.len() & 0xff) as u8);
            }
            let take = (64 - packet.len()).min(message.len() - offset);
            packet.extend_from_slice(&message[offset..offset + take]);
            packet.resize(64, 0);
            packets.push(packet);
            offset += take;
            sequence += 1;
            if offset == message.len() {
                return packets;
            }
        }
    }

    /// One command and its response, as a caller of the library runs it.
    fn exchange(&mut self, request: &Apdu) -> Result<Vec<u8>, Error> {
        for frame in request.frames() {
            self.written.push(frame.bytes().to_vec());
            frame.check_written(frame.bytes().len())?;
        }
        let answer = self.answers[self.next_answer].clone();
        self.next_answer += 1;
        let mut reader = ResponseReader::new();
        for packet in MockTransport::packets_of(&answer) {
            match reader.accept(&packet)? {
                Reassembly::Partial(next) => reader = next,
                Reassembly::Complete(message) => return response_body(message),
            }
        }
        panic!("the answer was not read to its end");
    }
}

fn with_status(body: &[u8], status: u16) -> Vec<u8> {
    let mut message = body.to_vec();
    message.push((status >> 8) as u8);
    message.push((status & 0xff) as u8);
    message
}

fn address_body(text: &[u8]) -> Vec<u8> {
    let mut body = vec![65u8];
    body.extend_from_slice(&[0x04; 65]);
    body.push(40);
    body.extend_from_slice(text);
    body
}

fn get_address(transport: &mut MockTransport, key_path: KeyPath) -> Result<Address, Error> {
    let mut query = AddressQuery::new();
    let mut exchange: Result<Vec<u8>, Error> = Ok(Vec::new());
    loop {
        let handed = match &exchange {
            Ok(body) => Ok(body.as_slice()),
            Err(error) => Err(error.clone()),
        };
        match query.advance_after(key_path, handed)? {
            QueryAction::Send(request) => exchange = transport.exchange(&request),
            QueryAction::Finish(address) => return Ok(address),
        }
    }
}

fn sign(transport: &mut MockTransport, kind: SignKind, key_path: KeyPath, payload: &[u8]) -> Result<Signature, Error> {
    let mut signing = Signing::new(kind, key_path, payload);
    let mut exchange: Result<Vec<u8>, Error> = Ok(Vec::new());
    loop {
        let handed = match &exchange {
            Ok(body) => Ok(body.as_slice()),
            Err(error) => Err(error.clone()),
        };
        match signing.advance_after(handed)? {
            SignAction::Send(request) => exchange = transport.exchange(&request),
            SignAction::Finish(signature) => return Ok(signature),
        }
    }
}

#[test]
fn end_to_end_address() {
    let mut transport = MockTransport::new(vec![
        with_status(&[0, 1, 0, 3], 0x9000),
        with_status(&address_body(b"a6ca2e6707f2cc189794a9dd459d5b05ed1bcd1c"), 0x9000),
    ]);
    let address = get_address(&mut transport, KeyPath::Ethereum).unwrap();
    assert_eq!(
        address,
        Address([
            0xa6, 0xca, 0x2e, 0x67, 0x07, 0xf2, 0xcc, 0x18, 0x97, 0x94, 0xa9, 0xdd, 0x45, 0x9d,
            0x5b, 0x05, 0xed, 0x1b, 0xcd, 0x1c,
        ])
    );
    let text: String = address.0.iter().map(|b| format!("{:02x}", b)).collect();
    assert_eq!(text, "a6ca2e6707f2cc189794a9dd459d5b05ed1bcd1c");
    // Two commands of one packet each were written.
    assert_eq!(transport.written.len(), 2);
    assert_eq!(&transport.written[0][..12], &[1, 1, 5, 0, 0, 0, 5, 0xe0, 0x06, 0, 0, 0]);
    assert_eq!(&transport.written[1][..12], &[1, 1, 5, 0, 0, 0, 22, 0xe0, 0x02, 0, 0, 17]);
    assert_eq!(&transport.written[1][12..29], &ETH_PATH);
}

#[test]
fn end_to_end_version_too_old() {
    let mut transport = MockTransport::new(vec![
        with_status(&[0, 1, 0, 2], 0x9000),
        with_status(&address_body(b"a6ca2e6707f2cc189794a9dd459d5b05ed1bcd1c"), 0x9000),
    ]);
    assert_eq!(
        get_address(&mut transport, KeyPath::Ethereum),
        Err(Error::Protocol("App version 1.0.3 is required."))
    );
    // The address was never asked for.
    assert_eq!(transport.written.len(), 1);
}

#[test]
fn end_to_end_device_refuses() {
    let mut transport = MockTransport::new(vec![with_status(&[], 0x6d00)]);
    assert_eq!(
        get_address(&mut transport, KeyPath::Ethereum),
        Err(Error::Protocol("Not implemented. Make sure Ethereum app is running."))
    );
}

#[test]
fn mode_switch_changes_the_path_sent() {
    let answers = vec![
        with_status(&[0, 1, 0, 3], 0x9000),
        with_status(&address_body(b"a6ca2e6707f2cc189794a9dd459d5b05ed1bcd1c"), 0x9000),
        with_status(&[0, 1, 0, 3], 0x9000),
        with_status(&address_body(b"1111111111111111111111111111111111111111"), 0x9000),
    ];
    let mut transport = MockTransport::new(answers);
    get_address(&mut transport, KeyPath::Ethereum).unwrap();
    get_address(&mut transport, KeyPath::EthereumClassic).unwrap();
    assert_eq!(transport.written.len(), 4);
    assert_eq!(transport.written[1][11], 17);
    assert_eq!(&transport.written[1][12..29], &ETH_PATH);
    assert_eq!(transport.written[3][11], 21);
    assert_eq!(&transport.written[3][12..33], &ETC_PATH);
}

#[test]
fn mode_is_read_when_the_address_is_asked_for() {
    // The mode changes after the version came back and before the address
    // is asked for: the new path is sent.
    let mut query = AddressQuery::new();
    let first = query.advance(KeyPath::Ethereum, &[]).unwrap();
    assert!(matches!(first, QueryAction::Send(ref request) if request.command == 0x06));
    assert_eq!(query, AddressQuery::VersionAsked);
    let second = query.advance(KeyPath::EthereumClassic, &[0, 1, 0, 3]).unwrap();
    match second {
        QueryAction::Send(request) => {
            assert_eq!(request.command, 0x02);
            assert_eq!(request.data, ETC_PATH.to_vec());
        },
        QueryAction::Finish(_) => panic!("the address was not asked for yet"),
    }
    assert_eq!(query, AddressQuery::AddressAsked);
}

#[test]
fn refused_response_leaves_the_query_where_it_was() {
    let mut query = AddressQuery::VersionAsked;
    assert_eq!(
        query.advance(KeyPath::Ethereum, &[0, 1, 0]).err(),
        Some(Error::Protocol("Version packet size mismatch"))
    );
    assert_eq!(query, AddressQuery::VersionAsked);
    let mut query = AddressQuery::AddressAsked;
    assert_eq!(
        query.advance(KeyPath::Ethereum, &[0; 106]).err(),
        Some(Error::Protocol("Key packet size mismatch"))
    );
    assert_eq!(query, AddressQuery::AddressAsked);
}

fn signature_body(v: u8) -> Vec<u8> {
    let mut body = vec![v];
    body.extend_from_slice(&[0xaa; 32]);
    body.extend_from_slice(&[0xbb; 32]);
    body
}

#[test]
fn signing_in_one_chunk() {
    let payload: Vec<u8> = (0..44).collect();
    let mut transport = MockTransport::new(vec![with_status(&signature_body(0), 0x9000)]);
    let signature = sign(&mut transport, SignKind::Transaction, KeyPath::Ethereum, &payload).unwrap();
    assert_eq!(signature, Signature { v: 1, r: [0xaa; 32], s: [0xbb; 32] });
    // 17 + 44 bytes of data need two packets.
    assert_eq!(transport.written.len(), 2);
    assert_eq!(&transport.written[0][..12], &[1, 1, 5, 0, 0, 0, 66, 0xe0, 0x04, 0x00, 0x00, 61]);
    assert_eq!(&transport.written[0][12..29], &ETH_PATH);
    assert_eq!(&transport.written[0][29..64], &payload[..35]);
    assert_eq!(&transport.written[1][..5], &[1, 1, 5, 0, 1]);
    assert_eq!(&transport.written[1][5..14], &payload[35..]);
}

#[test]
fn signing_in_several_chunks_reads_the_last_response() {
    let payload: Vec<u8> = (0..600).map(|i| (i % 251) as u8).collect();
    let mut transport = MockTransport::new(vec![
        with_status(&[], 0x9000),
        with_status(&[1, 2, 3], 0x9000),
        with_status(&signature_body(1), 0x9000),
    ]);
    let signature = sign(&mut transport, SignKind::Message, KeyPath::EthereumClassic, &payload).unwrap();
    assert_eq!(signature, Signature { v: 0, r: [0xaa; 32], s: [0xbb; 32] });
    assert_eq!(transport.next_answer, 3);
    // The first packet of each command: instruction 0x08, then P1.
    let firsts: Vec<&Vec<u8>> = transport.written.iter().filter(|p| p[3] == 0 && p[4] == 0).collect();
    assert_eq!(firsts.len(), 3);
    assert_eq!(&firsts[0][7..12], &[0xe0, 0x08, 0x00, 0x00, 255]);
    assert_eq!(&firsts[1][7..12], &[0xe0, 0x08, 0x80, 0x00, 234]);
    assert_eq!(&firsts[2][7..12], &[0xe0, 0x08, 0x80, 0x00, 132]);
}

#[test]
fn signing_stops_at_the_first_failure() {
    let payload = vec![7u8; 600];
    let mut transport = MockTransport::new(vec![
        with_status(&[], 0x9000),
        with_status(&[], 0x6a85),
        with_status(&signature_body(1), 0x9000),
    ]);
    assert_eq!(
        sign(&mut transport, SignKind::Transaction, KeyPath::Ethereum, &payload),
        Err(Error::UserCancel)
    );
    assert_eq!(transport.next_answer, 2);
}

#[test]
fn signing_an_empty_payload_sends_nothing() {
    let mut transport = MockTransport::new(vec![]);
    assert_eq!(
        sign(&mut transport, SignKind::Transaction, KeyPath::Ethereum, &[]),
        Err(Error::Protocol("Signature packet size mismatch"))
    );
    assert!(transport.written.is_empty());
}

#[test]
fn signature_of_wrong_size_is_refused() {
    let mut transport = MockTransport::new(vec![with_status(&signature_body(0)[..64], 0x9000)]);
    assert_eq!(
        sign(&mut transport, SignKind::Message, KeyPath::Ethereum, &[1, 2, 3]),
        Err(Error::Protocol("Signature packet size mismatch"))
    );
}

#[test]
fn transaction_of_477_bytes_takes_three_commands() {
    let payload = vec![3u8; 477];
    let mut transport = MockTransport::new(vec![
        with_status(&[], 0x9000),
        with_status(&[], 0x9000),
        with_status(&signature_body(0), 0x9000),
    ]);
    sign(&mut transport, SignKind::Transaction, KeyPath::Ethereum, &payload).unwrap();
    assert_eq!(transport.next_answer, 3);
    let firsts: Vec<&Vec<u8>> = transport.written.iter().filter(|p| p[3] == 0 && p[4] == 0).collect();
    assert_eq!(firsts.len(), 3);
    for first in &firsts {
        assert_eq!(&first[7..9], &[0xe0, 0x04]);
        assert_eq!(first[10], 0x00);
    }
    assert_eq!(firsts[0][11], 255);
    assert_eq!(firsts[1][11], 238);
    assert_eq!(firsts[2][11], 1);
}

#[test]
fn failed_exchange_aborts_signing() {
    let mut signing = Signing::new(SignKind::Transaction, KeyPath::Ethereum, &[7u8; 600]);
    assert!(matches!(signing.advance_after(Ok(&[])), Ok(SignAction::Send(_))));
    let failure = Error::Usb("device gone".to_string());
    assert_eq!(signing.advance_after(Err(failure.clone())).err(), Some(failure));
    // The state did not move: the second command is still the next one.
    match signing.advance_after(Ok(&[])) {
        Ok(SignAction::Send(request)) => {
            assert_eq!(request.p1, 0x80);
            assert_eq!(request.data, vec![7u8; 238]);
        },
        _ => panic!("the second command was not handed out"),
    }
    assert_eq!(
        signing.advance_after(Err(Error::Protocol("Unexpected chunk header"))).err(),
        Some(Error::Protocol("Unexpected chunk header"))
    );
}

#[test]
fn failed_exchange_aborts_the_address_query() {
    let mut query = AddressQuery::new();
    assert!(matches!(query.advance_after(KeyPath::Ethereum, Ok(&[])), Ok(QueryAction::Send(_))));
    assert_eq!(query, AddressQuery::VersionAsked);
    assert_eq!(
        query.advance_after(KeyPath::Ethereum, Err(Error::UserCancel)).err(),
        Some(Error::UserCancel)
    );
    assert_eq!(query, AddressQuery::VersionAsked);
    assert!(matches!(
        query.advance_after(KeyPath::Ethereum, Ok(&[0, 1, 0, 3])),
        Ok(QueryAction::Send(_))
    ));
    assert_eq!(
        query.advance_after(KeyPath::Ethereum, Err(Error::Usb("timeout".to_string()))).err(),
        Some(Error::Usb("timeout".to_string()))
    );
    assert_eq!(query, AddressQuery::AddressAsked);
}

#[test]
fn short_write_stops_the_exchange() {
    // A transport that writes only part of the second packet.
    let request = Apdu { command: 0x04, p1: 0, p2: 0, data: vec![1u8; 200] };
    let frames = request.frames();
    assert_eq!(frames.len(), 4);
    let mut written = 0;
    let mut outcome = Ok(());
    for (i, frame) in frames.iter().enumerate() {
        let reported = if i == 1 { 40 } else { 64 };
        written += 1;
        outcome = frame.check_written(reported);
        if outcome.is_err() {
            break;
        }
    }
    assert_eq!(outcome, Err(Error::Protocol("Write size mismatch")));
    assert_eq!(written, 2);
}
