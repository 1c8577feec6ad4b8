//! The commands of the Ethereum application on the device: asking for the
//! application's version and for the address, and signing in chunks.

use vstd::prelude::*;
use vstd::utf8::{is_leading_byte_width_1, partial_valid_utf8, valid_utf8};
use vstd::utf8::partial_valid_utf8_extend_ascii_block;
use vstd::slice::slice_subrange;
use crate::address::{address_from_hex, spec_address_of_hex, spec_all_hex, spec_hex_value, utf8_text};
use crate::address::Address;
use crate::error::Error;
use crate::frame::{append_range, encode_apdu, spec_apdu, spec_frame_views, spec_frames, Frame};

verus! {

/// Instruction: report the application's configuration and version.
pub const GET_APP_CONFIGURATION: u8 = 0x06;

/// Instruction: report the public key and address of a derivation path.
pub const GET_ETH_PUBLIC_ADDRESS: u8 = 0x02;

/// Instruction: sign a transaction.
pub const SIGN_ETH_TRANSACTION: u8 = 0x04;

/// Instruction: sign a personal message.
pub const SIGN_ETH_MESSAGE: u8 = 0x08;

/// Most data bytes that one command can carry.
pub const MAX_CHUNK_SIZE: usize = 255;

/// First parameter of the first chunk of a signing operation.
pub const P1_FIRST: u8 = 0x00;

/// First parameter of every later chunk of a signing operation.
pub const P1_MORE: u8 = 0x80;

/// Length of the response to a version request.
pub const VERSION_RESPONSE_SIZE: usize = 4;

/// Length of the response to an address request: a length marker, 65 bytes
/// of public key, a length marker, 40 hexadecimal digits of address.
pub const ADDRESS_RESPONSE_SIZE: usize = 107;

/// Where the address text starts in the response to an address request.
pub const ADDRESS_TEXT_START: usize = 67;

/// Which derivation path the device is asked to use.
#[derive(Debug, Clone, Copy, PartialEq, Eq, Structural)]
pub enum KeyPath {
    /// Ethereum, 44'/60'/0'/0.
    Ethereum,
    /// Ethereum Classic, 44'/60'/160720'/0'/0.
    EthereumClassic,
}

/// The encoded derivation path of a mode: the depth, then each segment as
/// four big-endian bytes, hardened segments with the top bit set.
pub open spec fn spec_derivation_path(key_path: KeyPath) -> Seq<u8> {
    match key_path {
        KeyPath::Ethereum => seq![
            4u8, 0x80, 0, 0, 44, 0x80, 0, 0, 60, 0x80, 0, 0, 0, 0, 0, 0, 0,
        ],
        KeyPath::EthereumClassic => seq![
            5u8, 0x80, 0, 0, 44, 0x80, 0, 0, 60, 0x80, 0x02, 0x73, 0xd0, 0x80, 0, 0, 0, 0, 0, 0, 0,
        ],
    }
}

/// The length of the encoded derivation path of a mode: the depth byte and
/// four bytes a segment.
pub open spec fn spec_path_len(key_path: KeyPath) -> nat {
    match key_path {
        KeyPath::Ethereum => 17,
        KeyPath::EthereumClassic => 21,
    }
}

/// The encoded derivation path of a mode.
pub fn derivation_path(key_path: KeyPath) -> (path: Vec<u8>)
    ensures
        path@ == spec_derivation_path(key_path),
        path@.len() == spec_path_len(key_path),
{
    let path: Vec<u8> = match key_path {
        KeyPath::Ethereum => vec![4u8, 0x80, 0, 0, 44, 0x80, 0, 0, 60, 0x80, 0, 0, 0, 0, 0, 0, 0],
        KeyPath::EthereumClassic => vec![
            5u8, 0x80, 0, 0, 44, 0x80, 0, 0, 60, 0x80, 0x02, 0x73, 0xd0, 0x80, 0, 0, 0, 0, 0, 0, 0,
        ],
    };
    assert(path@ =~= spec_derivation_path(key_path));
    path
}

/// What a command is: instruction, two parameters, data.
pub struct ApduView {
    pub command: u8,
    pub p1: u8,
    pub p2: u8,
    pub data: Seq<u8>,
}

/// One command for the device.
#[derive(Debug, PartialEq, Eq)]
pub struct Apdu {
    /// The instruction code.
    pub command: u8,
    /// The first parameter.
    pub p1: u8,
    /// The second parameter.
    pub p2: u8,
    /// The data that goes with the instruction.
    pub data: Vec<u8>,
}

impl View for Apdu {
    type V = ApduView;

    open spec fn view(&self) -> ApduView {
        ApduView { command: self.command, p1: self.p1, p2: self.p2, data: self.data@ }
    }
}

impl Clone for Apdu {
    fn clone(&self) -> (copy: Apdu)
        ensures
            copy@ == self@,
    {
        Apdu { command: self.command, p1: self.p1, p2: self.p2, data: self.data.clone() }
    }
}

impl Apdu {
    /// The transport packets that carry this command.
    pub fn frames(&self) -> (frames: Vec<Frame>)
        ensures
            spec_frame_views(frames@) == spec_frames(
                spec_apdu(self@.command, self@.p1, self@.p2, self@.data),
            ),
    {
        encode_apdu(self.command, self.p1, self.p2, self.data.as_slice())
    }
}

/// The command that asks for the application's version: no data.
pub open spec fn spec_version_request() -> ApduView {
    ApduView { command: GET_APP_CONFIGURATION, p1: 0, p2: 0, data: Seq::empty() }
}

/// The command that asks for the application's version.
pub fn version_request() -> (request: Apdu)
    ensures
        request@ == spec_version_request(),
{
    Apdu { command: GET_APP_CONFIGURATION, p1: 0, p2: 0, data: Vec::new() }
}

/// The command that asks for the address of a mode: its data is the mode's
/// derivation path.
pub open spec fn spec_address_request(key_path: KeyPath) -> ApduView {
    ApduView {
        command: GET_ETH_PUBLIC_ADDRESS,
        p1: 0,
        p2: 0,
        data: spec_derivation_path(key_path),
    }
}

/// The command that asks for the address of a mode.
pub fn address_request(key_path: KeyPath) -> (request: Apdu)
    ensures
        request@ == spec_address_request(key_path),
{
    Apdu { command: GET_ETH_PUBLIC_ADDRESS, p1: 0, p2: 0, data: derivation_path(key_path) }
}

/// The version that an application reports.
#[derive(Debug, Clone, Copy, PartialEq, Eq)]
pub struct AppVersion {
    pub flags: u8,
    pub major: u8,
    pub minor: u8,
    pub patch: u8,
}

/// Whether a version is 1.0.3 or later.
pub open spec fn spec_version_supported(major: u8, minor: u8, patch: u8) -> bool {
    major > 1 || (major == 1 && (minor > 0 || patch >= 3))
}

/// What the response to a version request yields: flags, major, minor and
/// patch, if the response has four bytes and the version is 1.0.3 or later.
pub open spec fn spec_parse_app_version(response: Seq<u8>) -> Result<AppVersion, Error> {
    if response.len() != VERSION_RESPONSE_SIZE {
        Err(Error::Protocol("Version packet size mismatch"))
    } else if !spec_version_supported(response[1], response[2], response[3]) {
        Err(Error::Protocol("App version 1.0.3 is required."))
    } else {
        Ok(
            AppVersion {
                flags: response[0],
                major: response[1],
                minor: response[2],
                patch: response[3],
            },
        )
    }
}

/// Reads the response to a version request.
pub fn parse_app_version(response: &[u8]) -> (outcome: Result<AppVersion, Error>)
    ensures
        outcome == spec_parse_app_version(response@),
{
    if response.len() != VERSION_RESPONSE_SIZE {
        return Err(Error::Protocol("Version packet size mismatch"));
    }
    let major = response[1];
    let minor = response[2];
    let patch = response[3];
    if major < 1 || (major == 1 && minor == 0 && patch < 3) {
        return Err(Error::Protocol("App version 1.0.3 is required."));
    }
    Ok(AppVersion { flags: response[0], major, minor, patch })
}

/// What the response to an address request yields: the address that its
/// last 40 bytes spell in hexadecimal digits, if the response has 107 bytes
/// and those 40 are all digits.
pub open spec fn spec_parse_address(response: Seq<u8>) -> Result<Seq<u8>, Error> {
    if response.len() != ADDRESS_RESPONSE_SIZE {
        Err(Error::Protocol("Key packet size mismatch"))
    } else {
        match spec_address_of_hex(
            response.subrange(ADDRESS_TEXT_START as int, ADDRESS_RESPONSE_SIZE as int),
        ) {
            Some(bytes) => Ok(bytes),
            None => Err(Error::Protocol("Invalid address string")),
        }
    }
}

/// Hexadecimal digits are ASCII, so a text made of them is well-formed
/// UTF-8.
proof fn lemma_hex_is_utf8(text: Seq<u8>)
    requires
        spec_all_hex(text),
    ensures
        valid_utf8(text),
{
    assert forall|i: int| 0 <= i < text.len() implies #[trigger] is_leading_byte_width_1(
        text[i],
    ) by {
        assert(spec_hex_value(text[i]) is Some);
    }
    assert(text.subrange(0, 0) =~= Seq::<u8>::empty());
    assert(partial_valid_utf8(text, 0));
    partial_valid_utf8_extend_ascii_block(text, 0, text.len() as int);
    assert(text.subrange(0, text.len() as int) =~= text);
}

/// Reads the response to an address request.
pub fn parse_address(response: &[u8]) -> (outcome: Result<Address, Error>)
    ensures
        match spec_parse_address(response@) {
            Ok(bytes) => outcome matches Ok(address) && address@ == bytes,
            Err(error) => outcome == Err::<Address, Error>(error),
        },
{
    if response.len() != ADDRESS_RESPONSE_SIZE {
        return Err(Error::Protocol("Key packet size mismatch"));
    }
    let digits = slice_subrange(response, ADDRESS_TEXT_START, ADDRESS_RESPONSE_SIZE);
    proof {
        if spec_all_hex(digits@) {
            lemma_hex_is_utf8(digits@);
        }
    }
    match utf8_text(digits) {
        Some(text) => match address_from_hex(text) {
            Some(address) => Ok(address),
            None => Err(Error::Protocol("Invalid address string")),
        },
        None => Err(Error::Protocol("Invalid address string")),
    }
}

/// What is being signed, which decides the instruction.
#[derive(Debug, Clone, Copy, PartialEq, Eq, Structural)]
pub enum SignKind {
    /// A personal message.
    Message,
    /// A transaction.
    Transaction,
}

/// The instruction that signs a kind of payload.
pub open spec fn spec_sign_command(kind: SignKind) -> u8 {
    match kind {
        SignKind::Message => SIGN_ETH_MESSAGE,
        SignKind::Transaction => SIGN_ETH_TRANSACTION,
    }
}

/// The instruction that signs a kind of payload.
pub fn sign_command(kind: SignKind) -> (command: u8)
    ensures
        command == spec_sign_command(kind),
{
    match kind {
        SignKind::Message => SIGN_ETH_MESSAGE,
        SignKind::Transaction => SIGN_ETH_TRANSACTION,
    }
}

/// `n` divided by `d`, rounded up.
pub open spec fn spec_ceil_div(n: int, d: int) -> int
    recommends
        n >= 0,
        d > 0,
{
    (n + d - 1) / d
}

/// How many payload bytes one chunk carries at most, for a path of
/// `path_len` bytes: what a first chunk has room for beside the path.
pub open spec fn spec_chunk_room(path_len: nat) -> int
    recommends
        path_len < MAX_CHUNK_SIZE,
{
    MAX_CHUNK_SIZE - path_len
}

/// How many payload bytes the chunks `0..=index` carry together.
pub open spec fn spec_chunk_end(path_len: nat, payload_len: nat, index: nat) -> nat {
    let reach = (index + 1) * spec_chunk_room(path_len);
    if 0 <= reach <= payload_len {
        reach as nat
    } else {
        payload_len
    }
}

/// Where in the payload chunk `index` starts.
pub open spec fn spec_chunk_start(path_len: nat, payload_len: nat, index: nat) -> nat {
    if index == 0 {
        0
    } else {
        spec_chunk_end(path_len, payload_len, (index - 1) as nat)
    }
}

/// The number of chunks of a signing operation: the payload cut into parts
/// of `255 - path_len` bytes, the last one possibly shorter; none for an
/// empty payload.
pub open spec fn spec_chunk_count(path_len: nat, payload_len: nat) -> nat {
    spec_ceil_div(payload_len as int, spec_chunk_room(path_len)) as nat
}

/// Whether `count` parts of `255 - path_len` bytes hold the payload and one
/// part less does not: that is, whether `count` is the payload's length
/// over `255 - path_len`, rounded up.
pub open spec fn spec_is_chunk_count(path_len: nat, payload_len: nat, count: nat) -> bool {
    &&& count * (MAX_CHUNK_SIZE - path_len) >= payload_len
    &&& count > 0 ==> (count - 1) * (MAX_CHUNK_SIZE - path_len) < payload_len
}

/// Whether `count` is the number of chunks for a payload of `payload_len`
/// bytes under the path of a mode: the payload's length over the room
/// beside the path, rounded up. The Ethereum path of 17 bytes leaves 238
/// bytes a chunk, the Ethereum Classic path of 21 bytes leaves 234.
pub open spec fn spec_is_mode_chunk_count(key_path: KeyPath, payload_len: nat, count: nat) -> bool {
    match key_path {
        KeyPath::Ethereum => {
            &&& count * 238 >= payload_len
            &&& count > 0 ==> (count - 1) * 238 < payload_len
        },
        KeyPath::EthereumClassic => {
            &&& count * 234 >= payload_len
            &&& count > 0 ==> (count - 1) * 234 < payload_len
        },
    }
}

/// The part of the payload that chunk `index` carries.
pub open spec fn spec_chunk_share(path_len: nat, payload: Seq<u8>, index: nat) -> Seq<u8> {
    payload.subrange(
        spec_chunk_start(path_len, payload.len(), index) as int,
        spec_chunk_end(path_len, payload.len(), index) as int,
    )
}

/// Chunk `index` of a signing operation. The first chunk carries the path
/// and then payload; every later one carries payload alone and is marked as
/// a continuation.
pub open spec fn spec_chunk(command: u8, path: Seq<u8>, payload: Seq<u8>, index: nat) -> ApduView {
    ApduView {
        command,
        p1: if index == 0 {
            P1_FIRST
        } else {
            P1_MORE
        },
        p2: 0,
        data: if index == 0 {
            path + spec_chunk_share(path.len(), payload, index)
        } else {
            spec_chunk_share(path.len(), payload, index)
        },
    }
}

/// All the chunks of a signing operation, in the order they are sent.
pub open spec fn spec_sign_requests(command: u8, path: Seq<u8>, payload: Seq<u8>) -> Seq<ApduView> {
    Seq::new(
        spec_chunk_count(path.len(), payload.len()),
        |i: int| spec_chunk(command, path, payload, i as nat),
    )
}

/// The views of a sequence of commands.
pub open spec fn spec_apdu_views(requests: Seq<Apdu>) -> Seq<ApduView> {
    requests.map_values(|r: Apdu| r@)
}

/// Rounding up gives the least number of parts of size `d` that hold `n`:
/// `count` parts fall short of `n` exactly when `count` is below the
/// quotient.
proof fn lemma_ceil_div_least(n: nat, d: int, count: nat)
    requires
        d > 0,
    ensures
        count * d < n <==> count < spec_ceil_div(n as int, d),
        spec_ceil_div(n as int, d) >= 0,
{
    let top = (n + d - 1) as int;
    let dd = d;
    let q = top / dd;
    let c = count as int;
    assert(dd * q <= top < dd * q + dd && q >= 0) by (nonlinear_arith)
        requires
            dd > 0,
            top >= 0,
            q == top / dd,
    ;
    if c < q {
        assert(c * dd <= dd * q - dd) by (nonlinear_arith)
            requires
                c + 1 <= q,
                dd > 0,
        ;
    } else {
        assert(c * dd >= dd * q) by (nonlinear_arith)
            requires
                c >= q,
                dd > 0,
        ;
    }
}

/// Where the chunks start and end, without the cut at the payload's end:
/// chunk `index` with `index` below the count starts at `index` parts and
/// ends one part later or at the payload's end; chunk `count` would start
/// at the payload's end.
proof fn lemma_chunk_bounds(path_len: nat, payload_len: nat, index: nat)
    requires
        path_len < MAX_CHUNK_SIZE,
        index <= spec_chunk_count(path_len, payload_len),
    ensures
        index < spec_chunk_count(path_len, payload_len) ==> {
            &&& spec_chunk_start(path_len, payload_len, index) == index * spec_chunk_room(path_len)
            &&& spec_chunk_start(path_len, payload_len, index) < payload_len
            &&& spec_chunk_end(path_len, payload_len, index) == if payload_len - spec_chunk_start(
                path_len,
                payload_len,
                index,
            ) < spec_chunk_room(path_len) {
                payload_len as int
            } else {
                spec_chunk_start(path_len, payload_len, index) + spec_chunk_room(path_len)
            }
        },
        index == spec_chunk_count(path_len, payload_len) ==> spec_chunk_start(
            path_len,
            payload_len,
            index,
        ) == payload_len,
{
    let room = spec_chunk_room(path_len);
    lemma_ceil_div_least(payload_len, room, index);
    assert((index + 1) * room == index * room + room) by (nonlinear_arith);
    assert(0 * room == 0) by (nonlinear_arith);
    if index > 0 {
        let before = (index - 1) as nat;
        lemma_ceil_div_least(payload_len, room, before);
        assert((before + 1) * room == index * room);
    }
}

/// Splits a payload into the commands of a signing operation under the
/// given instruction. Every command carries up to `255 - K` bytes of
/// payload, where `K` is the length of the derivation path; the first one
/// carries the path in front of them. The path must leave room for payload.
pub fn chunk_requests(command: u8, path: &[u8], payload: &[u8]) -> (requests: Vec<Apdu>)
    requires
        path@.len() < MAX_CHUNK_SIZE,
    ensures
        spec_apdu_views(requests@) == spec_sign_requests(command, path@, payload@),
        requests@.len() == spec_ceil_div(payload@.len() as int, MAX_CHUNK_SIZE - path@.len()),
        spec_is_chunk_count(path@.len(), payload@.len(), requests@.len()),
{
    let len = payload.len();
    let path_len = path.len();
    let room: usize = MAX_CHUNK_SIZE - path_len;
    let mut requests: Vec<Apdu> = Vec::new();
    let mut offset: usize = 0;
    let mut index: usize = 0;
    proof {
        lemma_chunk_bounds(path_len as nat, len as nat, 0);
    }
    while offset < len
        invariant
            len == payload@.len(),
            path_len == path@.len(),
            path_len < MAX_CHUNK_SIZE,
            room == spec_chunk_room(path_len as nat),
            offset <= len,
            offset == spec_chunk_start(path_len as nat, len as nat, index as nat),
            index <= spec_chunk_count(path_len as nat, len as nat),
            offset < len <==> index < spec_chunk_count(path_len as nat, len as nat),
            requests@.len() == index,
            forall|i: int|
                0 <= i < index ==> (#[trigger] requests@[i])@ == spec_chunk(
                    command,
                    path@,
                    payload@,
                    i as nat,
                ),
        decreases spec_chunk_count(path_len as nat, len as nat) - index,
    {
        proof {
            lemma_chunk_bounds(path_len as nat, len as nat, index as nat);
            lemma_chunk_bounds(path_len as nat, len as nat, (index + 1) as nat);
            lemma_ceil_div_least(len as nat, room as int, len as nat);
            assert(len * room >= len) by (nonlinear_arith)
                requires
                    room >= 1,
                    len >= 0,
            ;
        }
        let take: usize = if len - offset < room {
            len - offset
        } else {
            room
        };
        let mut data: Vec<u8> = Vec::new();
        if index == 0 {
            append_range(&mut data, path, 0, path_len);
            assert(path@.subrange(0, path_len as int) =~= path@);
        }
        append_range(&mut data, payload, offset, offset + take);
        let p1: u8 = if index == 0 {
            P1_FIRST
        } else {
            P1_MORE
        };
        requests.push(Apdu { command, p1, p2: 0, data });
        offset = offset + take;
        index = index + 1;
    }
    assert(spec_apdu_views(requests@) =~= spec_sign_requests(command, path@, payload@));
    proof {
        lemma_chunk_count(path_len as nat, len as nat);
    }
    requests
}

/// The commands that sign a payload of the given kind under the derivation
/// path of the given mode.
pub fn sign_requests(kind: SignKind, key_path: KeyPath, payload: &[u8]) -> (requests: Vec<Apdu>)
    ensures
        spec_apdu_views(requests@) == spec_sign_requests(
            spec_sign_command(kind),
            spec_derivation_path(key_path),
            payload@,
        ),
        spec_is_mode_chunk_count(key_path, payload@.len(), requests@.len()),
{
    let path = derivation_path(key_path);
    let requests = chunk_requests(sign_command(kind), path.as_slice(), payload);
    proof {
        let count = requests@.len();
        assert(spec_is_chunk_count(path@.len(), payload@.len(), count));
        match key_path {
            KeyPath::Ethereum => {
                assert(MAX_CHUNK_SIZE - path@.len() == 238);
                assert(count * (MAX_CHUNK_SIZE - path@.len()) == count * 238) by (nonlinear_arith)
                    requires
                        MAX_CHUNK_SIZE - path@.len() == 238,
                ;
                assert((count - 1) * (MAX_CHUNK_SIZE - path@.len()) == (count - 1) * 238)
                    by (nonlinear_arith)
                    requires
                        MAX_CHUNK_SIZE - path@.len() == 238,
                ;
            },
            KeyPath::EthereumClassic => {
                assert(MAX_CHUNK_SIZE - path@.len() == 234);
                assert(count * (MAX_CHUNK_SIZE - path@.len()) == count * 234) by (nonlinear_arith)
                    requires
                        MAX_CHUNK_SIZE - path@.len() == 234,
                ;
                assert((count - 1) * (MAX_CHUNK_SIZE - path@.len()) == (count - 1) * 234)
                    by (nonlinear_arith)
                    requires
                        MAX_CHUNK_SIZE - path@.len() == 234,
                ;
            },
        }
    }
    requests
}

/// The shares of the first `count` chunks, one after the other.
pub open spec fn spec_joined_shares(path_len: nat, payload: Seq<u8>, count: nat) -> Seq<u8>
    decreases count,
{
    if count == 0 {
        Seq::empty()
    } else {
        spec_joined_shares(path_len, payload, (count - 1) as nat) + spec_chunk_share(
            path_len,
            payload,
            (count - 1) as nat,
        )
    }
}

/// The shares of the first `count` chunks are the payload up to where chunk
/// `count` starts.
proof fn lemma_joined_shares(path_len: nat, payload: Seq<u8>, count: nat)
    requires
        path_len < MAX_CHUNK_SIZE,
        count <= spec_chunk_count(path_len, payload.len()),
    ensures
        spec_joined_shares(path_len, payload, count) == payload.take(
            spec_chunk_start(path_len, payload.len(), count) as int,
        ),
    decreases count,
{
    if count > 0 {
        let before = (count - 1) as nat;
        lemma_joined_shares(path_len, payload, before);
        lemma_chunk_bounds(path_len, payload.len(), before);
        lemma_chunk_bounds(path_len, payload.len(), count);
        assert(spec_joined_shares(path_len, payload, count) =~= payload.take(
            spec_chunk_start(path_len, payload.len(), count) as int,
        ));
    } else {
        assert(spec_joined_shares(path_len, payload, count) =~= payload.take(0));
    }
}

/// The chunks of a signing operation carry the whole payload, each byte
/// once and in order: the shares of all the chunks, joined, are the payload.
pub proof fn lemma_chunks_make_payload(path_len: nat, payload: Seq<u8>)
    requires
        path_len < MAX_CHUNK_SIZE,
    ensures
        spec_joined_shares(path_len, payload, spec_chunk_count(path_len, payload.len()))
            == payload,
{
    let count = spec_chunk_count(path_len, payload.len());
    lemma_joined_shares(path_len, payload, count);
    lemma_chunk_bounds(path_len, payload.len(), count);
    assert(payload.take(payload.len() as int) =~= payload);
}

/// The shape of each chunk of a signing operation, for a path of `K < 255`
/// bytes. The first chunk has first parameter `0x00` and carries the path,
/// then the first `min(255 - K, L)` bytes of the payload; every later chunk
/// has first parameter `0x80` and carries between 1 and `255 - K` bytes of
/// payload and nothing else; every chunk but the last carries `255 - K`
/// bytes of payload. The second parameter is always zero, and no chunk has
/// more than 255 bytes of data.
pub proof fn lemma_chunk_shape(command: u8, path: Seq<u8>, payload: Seq<u8>, index: nat)
    requires
        path.len() < MAX_CHUNK_SIZE,
        index < spec_chunk_count(path.len(), payload.len()),
    ensures
        spec_chunk(command, path, payload, index).command == command,
        spec_chunk(command, path, payload, index).p2 == 0,
        spec_chunk(command, path, payload, index).data.len() <= MAX_CHUNK_SIZE,
        1 <= spec_chunk_share(path.len(), payload, index).len() <= MAX_CHUNK_SIZE - path.len(),
        index + 1 < spec_chunk_count(path.len(), payload.len()) ==> spec_chunk_share(
            path.len(),
            payload,
            index,
        ).len() == MAX_CHUNK_SIZE - path.len(),
        index == 0 ==> {
            &&& spec_chunk(command, path, payload, index).p1 == P1_FIRST
            &&& spec_chunk(command, path, payload, index).data == path + spec_chunk_share(
                path.len(),
                payload,
                index,
            )
            &&& spec_chunk_share(path.len(), payload, index) == payload.take(
                if MAX_CHUNK_SIZE - path.len() <= payload.len() {
                    MAX_CHUNK_SIZE - path.len()
                } else {
                    payload.len() as int
                },
            )
        },
        index > 0 ==> {
            &&& spec_chunk(command, path, payload, index).p1 == P1_MORE
            &&& spec_chunk(command, path, payload, index).data == spec_chunk_share(
                path.len(),
                payload,
                index,
            )
        },
{
    lemma_chunk_bounds(path.len(), payload.len(), index);
    lemma_chunk_bounds(path.len(), payload.len(), index + 1);
}

/// The number of chunks of a signing operation, for a path of `K < 255`
/// bytes and a payload of `L` bytes, is `L / (255 - K)` rounded up: as many
/// parts of `255 - K` bytes as hold the payload, and no chunk for an empty
/// payload.
pub proof fn lemma_chunk_count(path_len: nat, payload_len: nat)
    requires
        path_len < MAX_CHUNK_SIZE,
    ensures
        spec_chunk_count(path_len, payload_len) == spec_ceil_div(
            payload_len as int,
            MAX_CHUNK_SIZE - path_len,
        ),
        spec_chunk_count(path_len, payload_len) == (payload_len + (MAX_CHUNK_SIZE - path_len) - 1)
            / (MAX_CHUNK_SIZE - path_len),
        spec_is_chunk_count(path_len, payload_len, spec_chunk_count(path_len, payload_len)),
        payload_len == 0 <==> spec_chunk_count(path_len, payload_len) == 0,
{
    let room = spec_chunk_room(path_len);
    let count = spec_chunk_count(path_len, payload_len);
    lemma_ceil_div_least(payload_len, room, count);
    if count > 0 {
        lemma_ceil_div_least(payload_len, room, (count - 1) as nat);
    }
    lemma_ceil_div_least(payload_len, room, 0);
    assert(0 * room == 0) by (nonlinear_arith);
}

/// The number of chunks under the path of a mode: the payload's length
/// over 238 bytes for Ethereum and over 234 bytes for Ethereum Classic,
/// rounded up.
pub proof fn lemma_mode_chunk_count(key_path: KeyPath, payload_len: nat)
    ensures
        spec_chunk_count(spec_path_len(key_path), payload_len) == spec_ceil_div(
            payload_len as int,
            MAX_CHUNK_SIZE - spec_path_len(key_path),
        ),
        spec_is_mode_chunk_count(
            key_path,
            payload_len,
            spec_chunk_count(spec_path_len(key_path), payload_len),
        ),
        forall|count: nat| #[trigger]
            spec_is_mode_chunk_count(key_path, payload_len, count) ==> count == spec_chunk_count(
                spec_path_len(key_path),
                payload_len,
            ),
{
    lemma_chunk_count(spec_path_len(key_path), payload_len);
    let count = spec_chunk_count(spec_path_len(key_path), payload_len);
    match key_path {
        KeyPath::Ethereum => {
            assert(count * (MAX_CHUNK_SIZE - 17) == count * 238);
            assert((count - 1) * (MAX_CHUNK_SIZE - 17) == (count - 1) * 238);
        },
        KeyPath::EthereumClassic => {
            assert(count * (MAX_CHUNK_SIZE - 21) == count * 234);
            assert((count - 1) * (MAX_CHUNK_SIZE - 21) == (count - 1) * 234);
        },
    }
}

/// The mode decides what is sent: the address request carries the mode's
/// derivation path, a signing operation starts with it, and the two modes
/// have different paths, so that a change of mode changes the bytes of the
/// next request.
pub proof fn lemma_key_path_decides(first: KeyPath, second: KeyPath, command: u8, payload: Seq<u8>)
    ensures
        spec_address_request(first).data == spec_derivation_path(first),
        spec_derivation_path(first).len() == spec_path_len(first),
        spec_derivation_path(first).len() < MAX_CHUNK_SIZE,
        payload.len() > 0 ==> spec_sign_requests(
            command,
            spec_derivation_path(first),
            payload,
        )[0].data.take(spec_derivation_path(first).len() as int) == spec_derivation_path(first),
        first != second ==> spec_derivation_path(first) != spec_derivation_path(second),
        first != second ==> spec_address_request(first) != spec_address_request(second),
{
    let path = spec_derivation_path(first);
    if payload.len() > 0 {
        lemma_chunk_count(path.len(), payload.len());
        lemma_chunk_bounds(path.len(), payload.len(), 0);
        let data = spec_sign_requests(command, path, payload)[0].data;
        assert(data.take(path.len() as int) =~= path);
    }
    if first != second {
        assert(spec_derivation_path(first).len() != spec_derivation_path(second).len());
    }
}

} // verus!
