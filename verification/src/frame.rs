//! The chunked HID transport: a command is cut into fixed-size packets, and
//! the packets of a response are put back together.
//!
//! Every packet is `channel (2 bytes) || tag (1 byte) || sequence (2 bytes,
//! big-endian) || payload`. The payload of the first packet starts with the
//! two-byte big-endian length of the whole message.

use vstd::prelude::*;
use crate::error::Error;

verus! {

/// Size of one transport packet.
pub const PACKET_SIZE: usize = 64;

/// Both bytes of the communication channel id.
pub const CHANNEL_BYTE: u8 = 0x01;

/// Tag that marks a packet as carrying a command or a response.
pub const APDU_TAG: u8 = 0x05;

/// Instruction class of every command.
pub const APDU_CLA: u8 = 0xe0;

/// Bytes of every packet taken up by channel id, tag and sequence id.
pub const NEXT_HEADER_SIZE: usize = 5;

/// Bytes of the first packet taken up before the message starts: the
/// transport header and the length of the message.
pub const FIRST_HEADER_SIZE: usize = 7;

/// Bytes of a command that precede its data: class, instruction, two
/// parameters, length byte. In the first packet of a command the data thus
/// starts at byte 12.
pub const APDU_HEADER_SIZE: usize = 5;

/// The high byte of a big-endian 16-bit field holding `n` (modulo 2^16).
pub open spec fn spec_high_byte(n: nat) -> u8 {
    ((n / 256) % 256) as u8
}

/// The low byte of a big-endian 16-bit field holding `n`.
pub open spec fn spec_low_byte(n: nat) -> u8 {
    (n % 256) as u8
}

/// The number read from a big-endian 16-bit field.
pub open spec fn spec_be16(high: u8, low: u8) -> nat {
    (high as nat) * 256 + (low as nat)
}

/// A command as a message: class, instruction, the two parameters, the
/// length byte, then the data.
pub open spec fn spec_apdu(command: u8, p1: u8, p2: u8, data: Seq<u8>) -> Seq<u8> {
    seq![APDU_CLA, command, p1, p2, spec_low_byte(data.len())] + data
}

/// How many bytes of a message of length `len` the packets `0..=index`
/// carry together: 57 in the first packet, 59 in every later one.
pub open spec fn spec_share_end(index: nat, len: nat) -> nat {
    if 57 + 59 * index <= len {
        57 + 59 * index
    } else {
        len
    }
}

/// Where in the message the share of packet `index` starts.
pub open spec fn spec_share_start(index: nat, len: nat) -> nat {
    if index == 0 {
        0
    } else {
        spec_share_end((index - 1) as nat, len)
    }
}

/// The number of packets for a message of length `len`: one, plus as many
/// as the bytes past the first 57 need at 59 a packet.
pub open spec fn spec_packet_count(len: nat) -> nat {
    (len + 1) / 59 + 1
}

/// The bytes that precede the message's share in packet `index`.
pub open spec fn spec_header(len: nat, index: nat) -> Seq<u8> {
    let transport = seq![
        CHANNEL_BYTE,
        CHANNEL_BYTE,
        APDU_TAG,
        spec_high_byte(index),
        spec_low_byte(index),
    ];
    if index == 0 {
        transport + seq![spec_high_byte(len), spec_low_byte(len)]
    } else {
        transport
    }
}

/// The meaningful bytes of packet `index`: its header and its share of the
/// message.
pub open spec fn spec_packet_body(message: Seq<u8>, index: nat) -> Seq<u8> {
    spec_header(message.len(), index) + message.subrange(
        spec_share_start(index, message.len()) as int,
        spec_share_end(index, message.len()) as int,
    )
}

/// A sequence of `count` zero bytes.
pub open spec fn spec_zeros(count: nat) -> Seq<u8> {
    Seq::new(count, |i: int| 0u8)
}

/// What a frame is: the packet as written, and how many of its leading bytes
/// are meaningful.
pub struct FrameView {
    pub bytes: Seq<u8>,
    pub used: nat,
}

/// Packet `index` of a message: the body, filled up with zeros to the packet
/// size.
pub open spec fn spec_frame(message: Seq<u8>, index: nat) -> FrameView {
    let body = spec_packet_body(message, index);
    FrameView { bytes: body + spec_zeros((PACKET_SIZE - body.len()) as nat), used: body.len() }
}

/// All the packets of a message, in the order they are written.
pub open spec fn spec_frames(message: Seq<u8>) -> Seq<FrameView> {
    Seq::new(spec_packet_count(message.len()), |i: int| spec_frame(message, i as nat))
}

/// One outgoing transport packet.
#[derive(Debug)]
pub struct Frame {
    bytes: Vec<u8>,
    used: usize,
}

impl View for Frame {
    type V = FrameView;

    closed spec fn view(&self) -> FrameView {
        FrameView { bytes: self.bytes@, used: self.used as nat }
    }
}

/// The views of a sequence of frames.
pub open spec fn spec_frame_views(frames: Seq<Frame>) -> Seq<FrameView> {
    frames.map_values(|f: Frame| f@)
}

impl Frame {
    /// The packet to hand to the transport.
    pub fn bytes(&self) -> (bytes: &[u8])
        ensures
            bytes@ == self@.bytes,
    {
        self.bytes.as_slice()
    }

    /// How many leading bytes of the packet are header and message; the
    /// rest is filling.
    pub fn used(&self) -> (used: usize)
        ensures
            used == self@.used,
    {
        self.used
    }

    /// Judges how many bytes of this packet the transport reports to have
    /// written: every packet is written in full, and fewer bytes than the
    /// packet has are a protocol violation. Where the platform puts bytes of
    /// its own in front of a packet, those do not count.
    pub fn check_written(&self, written: usize) -> (outcome: Result<(), Error>)
        ensures
            outcome == if written < self@.bytes.len() {
                Err::<(), Error>(Error::Protocol("Write size mismatch"))
            } else {
                Ok::<(), Error>(())
            },
    {
        if written < self.bytes.len() {
            Err(Error::Protocol("Write size mismatch"))
        } else {
            Ok(())
        }
    }
}

/// Appends `source[start..end]` to `out`.
pub(crate) fn append_range(out: &mut Vec<u8>, source: &[u8], start: usize, end: usize)
    requires
        start <= end <= source@.len(),
    ensures
        final(out)@ == old(out)@ + source@.subrange(start as int, end as int),
{
    let mut i: usize = start;
    while i < end
        invariant
            start <= i <= end <= source@.len(),
            out@ == old(out)@ + source@.subrange(start as int, i as int),
        decreases end - i,
    {
        out.push(source[i]);
        i += 1;
    }
}

/// Fills `out` up with zeros to the packet size.
fn pad_to_packet(out: &mut Vec<u8>)
    requires
        old(out)@.len() <= PACKET_SIZE,
    ensures
        final(out)@ == old(out)@ + spec_zeros((PACKET_SIZE - old(out)@.len()) as nat),
{
    while out.len() < PACKET_SIZE
        invariant
            old(out)@.len() <= out@.len() <= PACKET_SIZE,
            out@ == old(out)@ + spec_zeros((out@.len() - old(out)@.len()) as nat),
        decreases PACKET_SIZE - out@.len(),
    {
        out.push(0u8);
    }
}

/// The high byte of a big-endian 16-bit field holding `n`.
fn high_byte(n: usize) -> (b: u8)
    ensures
        b == spec_high_byte(n as nat),
{
    ((n / 256) % 256) as u8
}

/// The low byte of a big-endian 16-bit field holding `n`.
fn low_byte(n: usize) -> (b: u8)
    ensures
        b == spec_low_byte(n as nat),
{
    (n % 256) as u8
}

/// Builds packet `index` of a message, whose share is `message[start..end]`.
fn build_frame(message: &[u8], index: usize, start: usize, end: usize) -> (frame: Frame)
    requires
        start == spec_share_start(index as nat, message@.len()),
        end == spec_share_end(index as nat, message@.len()),
    ensures
        frame@ == spec_frame(message@, index as nat),
{
    let mut bytes: Vec<u8> = Vec::new();
    bytes.push(CHANNEL_BYTE);
    bytes.push(CHANNEL_BYTE);
    bytes.push(APDU_TAG);
    bytes.push(high_byte(index));
    bytes.push(low_byte(index));
    if index == 0 {
        bytes.push(high_byte(message.len()));
        bytes.push(low_byte(message.len()));
    }
    assert(bytes@ == spec_header(message@.len(), index as nat));
    append_range(&mut bytes, message, start, end);
    let used = bytes.len();
    assert(bytes@ == spec_packet_body(message@, index as nat));
    pad_to_packet(&mut bytes);
    Frame { bytes, used }
}

/// Cuts a message into transport packets.
///
/// The first packet carries the length of the message and up to 57 bytes of
/// it, every later one up to 59 bytes; each is filled up with zeros to 64
/// bytes. There is always at least one packet. The length field holds the
/// length modulo 2^16.
pub fn encode_message(message: &[u8]) -> (frames: Vec<Frame>)
    ensures
        spec_frame_views(frames@) == spec_frames(message@),
{
    let len = message.len();
    let mut frames: Vec<Frame> = Vec::new();
    let mut offset: usize = 0;
    let mut index: usize = 0;
    loop
        invariant_except_break
            len == message@.len(),
            index < spec_packet_count(len as nat),
            offset == spec_share_start(index as nat, len as nat),
            offset <= len,
            frames@.len() == index,
            forall|i: int|
                0 <= i < index ==> (#[trigger] frames@[i])@ == spec_frame(message@, i as nat),
        ensures
            len == message@.len(),
            frames@.len() == spec_packet_count(len as nat),
            forall|i: int|
                0 <= i < frames@.len() ==> (#[trigger] frames@[i])@ == spec_frame(
                    message@,
                    i as nat,
                ),
        decreases spec_packet_count(len as nat) - index,
    {
        let capacity: usize = if index == 0 {
            PACKET_SIZE - FIRST_HEADER_SIZE
        } else {
            PACKET_SIZE - NEXT_HEADER_SIZE
        };
        let size: usize = if len - offset < capacity {
            len - offset
        } else {
            capacity
        };
        let end: usize = offset + size;
        let frame = build_frame(message, index, offset, end);
        frames.push(frame);
        offset = end;
        if offset == len {
            break ;
        }
        index += 1;
    }
    assert(spec_frame_views(frames@) =~= spec_frames(message@));
    frames
}

/// Writes a command out as a message. The length byte holds the length of
/// the data modulo 256.
pub fn apdu_message(command: u8, p1: u8, p2: u8, data: &[u8]) -> (message: Vec<u8>)
    ensures
        message@ == spec_apdu(command, p1, p2, data@),
{
    let mut message: Vec<u8> = Vec::new();
    message.push(APDU_CLA);
    message.push(command);
    message.push(p1);
    message.push(p2);
    message.push(low_byte(data.len()));
    append_range(&mut message, data, 0, data.len());
    assert(data@.subrange(0, data@.len() as int) =~= data@);
    message
}

/// Cuts a command into transport packets: the packets of the command
/// written out as a message.
pub fn encode_apdu(command: u8, p1: u8, p2: u8, data: &[u8]) -> (frames: Vec<Frame>)
    ensures
        spec_frame_views(frames@) == spec_frames(spec_apdu(command, p1, p2, data@)),
{
    let message = apdu_message(command, p1, p2, data);
    encode_message(message.as_slice())
}

/// What a reader holds between two packets of a response.
pub struct ReaderView {
    /// The sequence id that the next packet must carry.
    pub next_sequence: nat,
    /// The length of the whole message, known once the first packet is in.
    pub message_size: nat,
    /// The bytes of the message gathered so far.
    pub message: Seq<u8>,
}

/// What one packet does to a reader.
pub enum Step {
    /// The packet does not start as the protocol demands.
    Rejected,
    /// The packet was taken in and the message is not complete yet.
    More(ReaderView),
    /// The packet completed the message.
    Done(Seq<u8>),
}

/// The state of a reader before the first packet.
pub open spec fn spec_initial() -> ReaderView {
    ReaderView { next_sequence: 0, message_size: 0, message: Seq::empty() }
}

/// Whether a packet starts as the reader expects: the channel id, the tag,
/// the awaited sequence id, and in the first packet room for the length.
pub open spec fn spec_header_ok(next_sequence: nat, packet: Seq<u8>) -> bool {
    &&& packet.len() >= NEXT_HEADER_SIZE
    &&& packet[0] == CHANNEL_BYTE
    &&& packet[1] == CHANNEL_BYTE
    &&& packet[2] == APDU_TAG
    &&& spec_be16(packet[3], packet[4]) == next_sequence
    &&& (next_sequence == 0 ==> packet.len() >= FIRST_HEADER_SIZE)
}

/// The effect of one packet on a reader: the payload is appended, and the
/// message is cut at the announced length, at which it is complete.
pub open spec fn spec_accept(state: ReaderView, packet: Seq<u8>) -> Step {
    if !spec_header_ok(state.next_sequence, packet) {
        Step::Rejected
    } else {
        let first = state.next_sequence == 0;
        let size = if first {
            spec_be16(packet[5], packet[6])
        } else {
            state.message_size
        };
        let payload = packet.subrange(
            if first {
                FIRST_HEADER_SIZE as int
            } else {
                NEXT_HEADER_SIZE as int
            },
            packet.len() as int,
        );
        let gathered = state.message + payload;
        let message = if gathered.len() > size {
            gathered.take(size as int)
        } else {
            gathered
        };
        if message.len() == size {
            Step::Done(message)
        } else {
            Step::More(
                ReaderView {
                    next_sequence: state.next_sequence + 1,
                    message_size: size,
                    message,
                },
            )
        }
    }
}

/// The effect of a run of packets on a fresh reader. Once a packet is
/// rejected or the message is complete, later packets change nothing.
pub open spec fn spec_feed(packets: Seq<Seq<u8>>) -> Step
    decreases packets.len(),
{
    if packets.len() == 0 {
        Step::More(spec_initial())
    } else {
        match spec_feed(packets.drop_last()) {
            Step::More(state) => spec_accept(state, packets.last()),
            other => other,
        }
    }
}

/// Puts the packets of one response together.
#[derive(Debug)]
pub struct ResponseReader {
    next_sequence: u32,
    message_size: usize,
    message: Vec<u8>,
}

impl View for ResponseReader {
    type V = ReaderView;

    closed spec fn view(&self) -> ReaderView {
        ReaderView {
            next_sequence: self.next_sequence as nat,
            message_size: self.message_size as nat,
            message: self.message@,
        }
    }
}

/// What a reader has after a packet that it accepted.
#[derive(Debug)]
pub enum Reassembly {
    /// More packets are needed; the reader to give them to.
    Partial(ResponseReader),
    /// The whole message, status word included.
    Complete(Vec<u8>),
}

impl ResponseReader {
    /// A reader that awaits the first packet of a response.
    pub fn new() -> (reader: ResponseReader)
        ensures
            reader@ == spec_initial(),
    {
        ResponseReader { next_sequence: 0, message_size: 0, message: Vec::new() }
    }

    /// Takes in the next packet as the transport delivered it.
    ///
    /// A packet that is shorter than its header, that does not carry the
    /// channel id and tag, or whose sequence id is not the next one, fails
    /// with a protocol error.
    pub fn accept(self, packet: &[u8]) -> (outcome: Result<Reassembly, Error>)
        ensures
            match spec_accept(self@, packet@) {
                Step::Rejected => outcome == Err::<Reassembly, Error>(
                    Error::Protocol("Unexpected chunk header"),
                ),
                Step::More(state) => outcome matches Ok(Reassembly::Partial(reader)) && reader@
                    == state,
                Step::Done(message) => outcome matches Ok(Reassembly::Complete(bytes)) && bytes@
                    == message,
            },
    {
        let len = packet.len();
        if len < NEXT_HEADER_SIZE || packet[0] != CHANNEL_BYTE || packet[1] != CHANNEL_BYTE
            || packet[2] != APDU_TAG {
            return Err(Error::Protocol("Unexpected chunk header"));
        }
        let sequence: u32 = packet[3] as u32 * 256 + packet[4] as u32;
        if sequence != self.next_sequence {
            return Err(Error::Protocol("Unexpected chunk header"));
        }
        let mut offset: usize = NEXT_HEADER_SIZE;
        let mut size: usize = self.message_size;
        if sequence == 0 {
            if len < FIRST_HEADER_SIZE {
                return Err(Error::Protocol("Unexpected chunk header"));
            }
            size = packet[5] as usize * 256 + packet[6] as usize;
            offset = FIRST_HEADER_SIZE;
        }
        let mut message = self.message;
        append_range(&mut message, packet, offset, len);
        message.truncate(size);
        if message.len() == size {
            Ok(Reassembly::Complete(message))
        } else {
            Ok(
                Reassembly::Partial(
                    ResponseReader { next_sequence: sequence + 1, message_size: size, message },
                ),
            )
        }
    }
}

/// The outcome that a status word stands for: success for `0x9000` alone.
pub open spec fn spec_status_outcome(status: u16) -> Result<(), Error> {
    if status == 0x9000 {
        Ok(())
    } else if status == 0x6700 {
        Err(Error::Protocol("Incorrect length"))
    } else if status == 0x6982 {
        Err(Error::Protocol("Security status not satisfied (Canceled by user)"))
    } else if status == 0x6a80 {
        Err(Error::Protocol("Invalid data"))
    } else if status == 0x6a82 {
        Err(Error::Protocol("File not found"))
    } else if status == 0x6a85 {
        Err(Error::UserCancel)
    } else if status == 0x6b00 {
        Err(Error::Protocol("Incorrect parameters"))
    } else if status == 0x6d00 {
        Err(Error::Protocol("Not implemented. Make sure Ethereum app is running."))
    } else if status == 0x6faa {
        Err(Error::Protocol("Your Ledger need to be unplugged"))
    } else if 0x6f00 <= status <= 0x6fff {
        Err(Error::Protocol("Internal error"))
    } else {
        Err(Error::Protocol("Unknown error"))
    }
}

/// Maps a status word to its outcome.
pub fn status_outcome(status: u16) -> (outcome: Result<(), Error>)
    ensures
        outcome == spec_status_outcome(status),
        outcome is Ok <==> status == 0x9000,
{
    if status == 0x9000 {
        Ok(())
    } else if status == 0x6700 {
        Err(Error::Protocol("Incorrect length"))
    } else if status == 0x6982 {
        Err(Error::Protocol("Security status not satisfied (Canceled by user)"))
    } else if status == 0x6a80 {
        Err(Error::Protocol("Invalid data"))
    } else if status == 0x6a82 {
        Err(Error::Protocol("File not found"))
    } else if status == 0x6a85 {
        Err(Error::UserCancel)
    } else if status == 0x6b00 {
        Err(Error::Protocol("Incorrect parameters"))
    } else if status == 0x6d00 {
        Err(Error::Protocol("Not implemented. Make sure Ethereum app is running."))
    } else if status == 0x6faa {
        Err(Error::Protocol("Your Ledger need to be unplugged"))
    } else if 0x6f00 <= status && status <= 0x6fff {
        Err(Error::Protocol("Internal error"))
    } else {
        Err(Error::Protocol("Unknown error"))
    }
}

/// The status word of a message: its last two bytes, big-endian.
pub open spec fn spec_status_word(message: Seq<u8>) -> u16
    recommends
        message.len() >= 2,
{
    spec_be16(message[message.len() - 2], message[message.len() - 1]) as u16
}

/// What a reassembled message yields: on success, the message without its
/// status word; else the error that the status word stands for.
pub open spec fn spec_response_body(message: Seq<u8>) -> Result<Seq<u8>, Error> {
    if message.len() < 2 {
        Err(Error::Protocol("No status word"))
    } else {
        match spec_status_outcome(spec_status_word(message)) {
            Ok(_) => Ok(message.take(message.len() - 2)),
            Err(error) => Err(error),
        }
    }
}

/// Splits a reassembled message into body and status word, and judges the
/// status word.
pub fn response_body(message: Vec<u8>) -> (outcome: Result<Vec<u8>, Error>)
    ensures
        match spec_response_body(message@) {
            Ok(body) => outcome matches Ok(bytes) && bytes@ == body,
            Err(error) => outcome == Err::<Vec<u8>, Error>(error),
        },
{
    let len = message.len();
    if len < 2 {
        return Err(Error::Protocol("No status word"));
    }
    let status: u16 = message[len - 2] as u16 * 256 + message[len - 1] as u16;
    match status_outcome(status) {
        Ok(_) => {
            let mut body = message;
            body.truncate(len - 2);
            Ok(body)
        },
        Err(error) => Err(error),
    }
}

/// The packets of a message as the transport carries them.
pub open spec fn spec_packets(message: Seq<u8>) -> Seq<Seq<u8>> {
    Seq::new(spec_packet_count(message.len()), |i: int| spec_frame(message, i as nat).bytes)
}

/// The reader after the packets `0..count` of a message, where more follow.
spec fn spec_reader_after(message: Seq<u8>, count: nat) -> ReaderView {
    if count == 0 {
        spec_initial()
    } else {
        ReaderView {
            next_sequence: count,
            message_size: message.len(),
            message: message.take(spec_share_end((count - 1) as nat, message.len()) as int),
        }
    }
}

/// Where the message's share starts in packet `index`.
spec fn spec_share_offset(index: nat) -> int {
    if index == 0 {
        FIRST_HEADER_SIZE as int
    } else {
        NEXT_HEADER_SIZE as int
    }
}

/// The sequence id and the length read back from the header are those that
/// were written, as long as each fits two bytes.
proof fn lemma_be16_round_trip(n: nat)
    requires
        n <= 0xffff,
    ensures
        spec_be16(spec_high_byte(n), spec_low_byte(n)) == n,
{
}

/// The layout of packet `index` of a message: 64 bytes, of which the header
/// comes first, then the packet's share of the message, then zeros.
#[verifier::spinoff_prover]
proof fn lemma_packet_layout(message: Seq<u8>, index: nat)
    requires
        message.len() <= 0xffff,
        index < spec_packet_count(message.len()),
    ensures
        ({
            let packet = spec_frame(message, index).bytes;
            let start = spec_share_start(index, message.len()) as int;
            let end = spec_share_end(index, message.len()) as int;
            let offset = spec_share_offset(index);
            &&& packet.len() == PACKET_SIZE
            &&& 0 <= start <= end <= message.len()
            &&& offset + (end - start) <= PACKET_SIZE
            &&& spec_header_ok(index, packet)
            &&& index == 0 ==> spec_be16(packet[5], packet[6]) == message.len()
            &&& packet.subrange(offset, PACKET_SIZE as int) == message.subrange(start, end)
                + spec_zeros((PACKET_SIZE - offset - (end - start)) as nat)
            &&& index + 1 < spec_packet_count(message.len()) ==> end < message.len() && offset + (
            end - start) == PACKET_SIZE
            &&& index + 1 == spec_packet_count(message.len()) ==> end == message.len()
        }),
{
    let len = message.len();
    let packet = spec_frame(message, index).bytes;
    let start = spec_share_start(index, len) as int;
    let end = spec_share_end(index, len) as int;
    let offset = spec_share_offset(index);
    let header = spec_header(len, index);
    let share = message.subrange(start, end);
    let body = spec_packet_body(message, index);
    assert(header.len() == offset);
    assert(body == header + share);
    assert(body.len() == offset + (end - start));
    let pad = (PACKET_SIZE - body.len()) as nat;
    assert(packet == body + spec_zeros(pad));
    assert(packet.len() == PACKET_SIZE);
    assert(index <= 0xffff);
    lemma_be16_round_trip(index);
    lemma_be16_round_trip(len);
    assert(packet[0] == header[0]);
    assert(packet[1] == header[1]);
    assert(packet[2] == header[2]);
    assert(packet[3] == header[3]);
    assert(packet[4] == header[4]);
    if index == 0 {
        assert(packet[5] == header[5]);
        assert(packet[6] == header[6]);
    }
    assert(packet.subrange(offset, PACKET_SIZE as int) =~= share + spec_zeros(pad));
}

/// What a reader does with a packet that starts as it should and whose
/// payload is a share of the message followed by filling: it appends the
/// share, and is done when the message has reached its length.
#[verifier::spinoff_prover]
proof fn lemma_accept_share(
    state: ReaderView,
    packet: Seq<u8>,
    size: nat,
    share: Seq<u8>,
    fill: Seq<u8>,
)
    requires
        spec_header_ok(state.next_sequence, packet),
        state.next_sequence == 0 ==> spec_be16(packet[5], packet[6]) == size,
        state.next_sequence > 0 ==> state.message_size == size,
        packet.subrange(spec_share_offset(state.next_sequence), packet.len() as int) == share
            + fill,
        state.message.len() + share.len() <= size,
        state.message.len() + share.len() < size ==> fill.len() == 0,
    ensures
        spec_accept(state, packet) == if state.message.len() + share.len() == size {
            Step::Done(state.message + share)
        } else {
            Step::More(
                ReaderView {
                    next_sequence: state.next_sequence + 1,
                    message_size: size,
                    message: state.message + share,
                },
            )
        },
{
    let kept = state.message + share;
    let gathered = state.message + (share + fill);
    assert(gathered =~= kept + fill);
    if kept.len() == size {
        assert(gathered.take(size as int) =~= kept);
        if gathered.len() == size {
            assert(gathered =~= kept);
        }
    } else {
        assert(gathered =~= kept);
    }
}

/// The message up to where a packet starts, and the packet's share, make
/// the message up to where the packet ends.
proof fn lemma_share_extends(message: Seq<u8>, start: int, end: int)
    requires
        0 <= start <= end <= message.len(),
    ensures
        message.take(start) + message.subrange(start, end) == message.take(end),
        end == message.len() ==> message.take(end) == message,
        message.take(0) == Seq::<u8>::empty(),
{
    assert(message.take(start) + message.subrange(start, end) =~= message.take(end));
    if end == message.len() {
        assert(message.take(end) =~= message);
    }
    assert(message.take(0) =~= Seq::<u8>::empty());
}

/// Packet `index` of a message takes the reader from the state after the
/// packets before it to the state after it, and the last packet completes
/// the message.
#[verifier::spinoff_prover]
proof fn lemma_accept_frame(message: Seq<u8>, index: nat)
    requires
        message.len() <= 0xffff,
        index < spec_packet_count(message.len()),
    ensures
        spec_accept(spec_reader_after(message, index), spec_packets(message)[index as int]) == if index
            + 1 == spec_packet_count(message.len()) {
            Step::Done(message)
        } else {
            Step::More(spec_reader_after(message, index + 1))
        },
{
    let len = message.len();
    let state = spec_reader_after(message, index);
    let packet = spec_frame(message, index).bytes;
    let start = spec_share_start(index, len) as int;
    let end = spec_share_end(index, len) as int;
    let share = message.subrange(start, end);
    let fill = spec_zeros((PACKET_SIZE - spec_share_offset(index) - (end - start)) as nat);
    lemma_packet_layout(message, index);
    lemma_share_extends(message, start, end);
    assert(state.next_sequence == index);
    assert(state.message == message.take(start));
    lemma_accept_share(state, packet, len, share, fill);
}

/// After the first `count` packets of a message the reader holds the
/// message up to where those packets end, and after the last one the whole
/// message.
proof fn lemma_feed_frames(message: Seq<u8>, count: nat)
    requires
        message.len() <= 0xffff,
        count <= spec_packet_count(message.len()),
    ensures
        spec_feed(spec_packets(message).take(count as int)) == if count == spec_packet_count(
            message.len(),
        ) {
            Step::Done(message)
        } else {
            Step::More(spec_reader_after(message, count))
        },
    decreases count,
{
    let packets = spec_packets(message);
    let prefix = packets.take(count as int);
    if count > 0 {
        let before = (count - 1) as nat;
        assert(prefix.drop_last() =~= packets.take(before as int));
        assert(prefix.last() == packets[before as int]);
        lemma_feed_frames(message, before);
        lemma_accept_frame(message, before);
    }
}

/// Round trip of the framing: a reader that is given the packets of a
/// message in order completes exactly at the last packet, and what it has
/// put together is the message itself. This holds for every message whose
/// length fits the two-byte length field, whatever it holds.
pub proof fn lemma_frames_reassemble(message: Seq<u8>)
    requires
        message.len() <= 0xffff,
    ensures
        spec_feed(spec_packets(message)) == Step::Done(message),
        forall|count: int|
            0 <= count < spec_packet_count(message.len()) ==> #[trigger] spec_feed(
                spec_packets(message).take(count),
            ) is More,
{
    let packets = spec_packets(message);
    assert(packets.take(packets.len() as int) =~= packets);
    lemma_feed_frames(message, packets.len());
    assert forall|count: int| 0 <= count < spec_packet_count(message.len()) implies #[trigger] spec_feed(
        packets.take(count),
    ) is More by {
        lemma_feed_frames(message, count as nat);
    }
}

/// Round trip of a command: the reader puts the packets of a command back
/// together to class, instruction, parameters, length byte and data, for
/// data of up to 65530 bytes.
pub proof fn lemma_command_reassembles(command: u8, p1: u8, p2: u8, data: Seq<u8>)
    requires
        data.len() + APDU_HEADER_SIZE <= 0xffff,
    ensures
        spec_feed(spec_packets(spec_apdu(command, p1, p2, data))) == Step::Done(
            seq![APDU_CLA, command, p1, p2, spec_low_byte(data.len())] + data,
        ),
{
    lemma_frames_reassemble(spec_apdu(command, p1, p2, data));
}

/// A rejected packet ends the reading: whatever follows it, the run stays
/// rejected.
pub proof fn lemma_rejection_is_final(packets: Seq<Seq<u8>>, count: int)
    requires
        0 <= count <= packets.len(),
        spec_feed(packets.take(count)) is Rejected,
    ensures
        spec_feed(packets) is Rejected,
    decreases packets.len() - count,
{
    if count < packets.len() {
        assert(packets.take(count + 1).drop_last() =~= packets.take(count));
        lemma_rejection_is_final(packets, count + 1);
    } else {
        assert(packets.take(count) =~= packets);
    }
}

/// A packet with a wrong channel id, tag or sequence id is rejected, in
/// whatever state the reader is.
pub proof fn lemma_wrong_header_rejected(state: ReaderView, packet: Seq<u8>)
    requires
        packet.len() < NEXT_HEADER_SIZE || packet[0] != CHANNEL_BYTE || packet[1] != CHANNEL_BYTE
            || packet[2] != APDU_TAG || spec_be16(packet[3], packet[4]) != state.next_sequence,
    ensures
        spec_accept(state, packet) is Rejected,
{
}

} // verus!
