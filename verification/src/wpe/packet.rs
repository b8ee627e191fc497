//! The game's wire format.
//!
//! A binary packet is a 16-byte header followed by its data, all integers
//! little-endian: magic (2 bytes, `0x9527`), length (4), command (2),
//! account number (8). Anything that does not begin with the magic is a
//! text packet.

use crate::redact::append_bytes;
use crate::text::{lossy_text, utf8_lossy};
use crate::wpe::{WpeError, WpeErrorView};
use byteorder::{ByteOrder, LittleEndian};
use vstd::prelude::*;
use vstd::slice::{slice_subrange, slice_to_vec};
use vstd::string::*;

verus! {

/// The first two bytes of every binary packet, as a little-endian number.
pub const PACKET_MAGIC: u16 = 0x9527;

/// The length of a binary packet's header.
pub const HEADER_LEN: usize = 16;

/// One packet of the game, binary or text.
#[derive(Debug)]
pub enum GamePacket {
    Binary { magic: u16, length: u32, command: u16, qq_num: u64, data: Vec<u8> },
    Text(String),
}

/// A `GamePacket` with its data and text as sequences.
pub enum GamePacketView {
    Binary { magic: u16, length: u32, command: u16, qq_num: u64, data: Seq<u8> },
    Text(Seq<char>),
}

impl View for GamePacket {
    type V = GamePacketView;

    open spec fn view(&self) -> GamePacketView {
        match self {
            GamePacket::Binary { magic, length, command, qq_num, data } => GamePacketView::Binary {
                magic: *magic,
                length: *length,
                command: *command,
                qq_num: *qq_num,
                data: data@,
            },
            GamePacket::Text(text) => GamePacketView::Text(text@),
        }
    }
}

/// What a handler wants done with a packet.
#[derive(Debug)]
pub enum PacketAction {
    Forward,
    Modified(GamePacket),
    Drop,
    Inject(GamePacket),
}

/// A handler looks at each packet and says what is to be done with it.
pub trait PacketHandler {
    fn handle_outbound(&self, packet: &GamePacket) -> PacketAction;

    fn handle_inbound(&self, packet: &GamePacket) -> PacketAction;
}

/// The number that bytes write in little-endian order: the first byte
/// counts least.
pub open spec fn le_value(bytes: Seq<u8>) -> nat
    decreases bytes.len(),
{
    if bytes.len() == 0 {
        0
    } else {
        bytes[0] as nat + 256 * le_value(bytes.drop_first())
    }
}

/// The `width` bytes that write `n` in little-endian order.
pub open spec fn le_bytes(n: nat, width: nat) -> Seq<u8>
    decreases width,
{
    if width == 0 {
        Seq::empty()
    } else {
        seq![(n % 256) as u8] + le_bytes(n / 256, (width - 1) as nat)
    }
}

/// 256 to the power of `width`: how many numbers `width` bytes can write.
pub open spec fn range_of(width: nat) -> nat
    decreases width,
{
    if width == 0 {
        1
    } else {
        256 * range_of((width - 1) as nat)
    }
}

/// Writing a number and reading it back gives the number, if the bytes are
/// enough to write it.
pub proof fn lemma_le_round_trip(n: nat, width: nat)
    requires
        n < range_of(width),
    ensures
        le_bytes(n, width).len() == width,
        le_value(le_bytes(n, width)) == n,
    decreases width,
{
    if width > 0 {
        let rest = le_bytes(n / 256, (width - 1) as nat);
        assert(n / 256 < range_of((width - 1) as nat)) by (nonlinear_arith)
            requires
                n < 256 * range_of((width - 1) as nat),
        ;
        lemma_le_round_trip(n / 256, (width - 1) as nat);
        let bytes = le_bytes(n, width);
        assert(bytes.drop_first() =~= rest);
    }
}

/// Reading bytes and writing the number back gives the bytes.
pub proof fn lemma_le_bytes_of_value(bytes: Seq<u8>)
    ensures
        le_value(bytes) < range_of(bytes.len()),
        le_bytes(le_value(bytes), bytes.len()) == bytes,
    decreases bytes.len(),
{
    if bytes.len() > 0 {
        let rest = bytes.drop_first();
        lemma_le_bytes_of_value(rest);
        let n = le_value(bytes);
        let first = bytes[0] as nat;
        let high = le_value(rest);
        assert(n % 256 == first && n / 256 == high) by (nonlinear_arith)
            requires
                n == first + 256 * high,
                0 <= first < 256,
        ;
        assert(le_bytes(n, bytes.len()) =~= bytes);
    }
}

/// How many numbers two, four and eight bytes can write.
pub proof fn lemma_ranges()
    ensures
        range_of(2) == 0x1_0000,
        range_of(4) == 0x1_0000_0000,
        range_of(8) == 0x1_0000_0000_0000_0000,
{
    reveal_with_fuel(range_of, 9);
}

/// Reads the first two bytes of `buf` as a little-endian number:
/// `byteorder::LittleEndian::read_u16`, which panics on a shorter buffer.
#[verifier::external_body]
fn read_u16_le(buf: &[u8]) -> (r: u16)
    requires
        buf@.len() >= 2,
    ensures
        r == le_value(buf@.take(2)),
{
    LittleEndian::read_u16(buf)
}

/// Reads the first four bytes of `buf` as a little-endian number:
/// `byteorder::LittleEndian::read_u32`, which panics on a shorter buffer.
#[verifier::external_body]
fn read_u32_le(buf: &[u8]) -> (r: u32)
    requires
        buf@.len() >= 4,
    ensures
        r == le_value(buf@.take(4)),
{
    LittleEndian::read_u32(buf)
}

/// Reads the first eight bytes of `buf` as a little-endian number:
/// `byteorder::LittleEndian::read_u64`, which panics on a shorter buffer.
#[verifier::external_body]
fn read_u64_le(buf: &[u8]) -> (r: u64)
    requires
        buf@.len() >= 8,
    ensures
        r == le_value(buf@.take(8)),
{
    LittleEndian::read_u64(buf)
}

/// The two little-endian bytes of `n`: `byteorder::LittleEndian::write_u16`
/// into a buffer of two bytes.
#[verifier::external_body]
fn u16_le_bytes(n: u16) -> (r: [u8; 2])
    ensures
        r@ == le_bytes(n as nat, 2),
{
    let mut buf = [0u8; 2];
    LittleEndian::write_u16(&mut buf, n);
    buf
}

/// The four little-endian bytes of `n`: `byteorder::LittleEndian::write_u32`
/// into a buffer of four bytes.
#[verifier::external_body]
fn u32_le_bytes(n: u32) -> (r: [u8; 4])
    ensures
        r@ == le_bytes(n as nat, 4),
{
    let mut buf = [0u8; 4];
    LittleEndian::write_u32(&mut buf, n);
    buf
}

/// The eight little-endian bytes of `n`:
/// `byteorder::LittleEndian::write_u64` into a buffer of eight bytes.
#[verifier::external_body]
fn u64_le_bytes(n: u64) -> (r: [u8; 8])
    ensures
        r@ == le_bytes(n as nat, 8),
{
    let mut buf = [0u8; 8];
    LittleEndian::write_u64(&mut buf, n);
    buf
}

/// The packet that `data` holds, or why it holds none.
pub open spec fn spec_parse(data: Seq<u8>) -> std::result::Result<GamePacketView, WpeErrorView> {
    if data.len() < 2 {
        Err(WpeErrorView::PacketParse("Packet too short"@))
    } else if le_value(data.subrange(0, 2)) == PACKET_MAGIC {
        if data.len() < HEADER_LEN {
            Err(WpeErrorView::PacketParse("Binary packet too short"@))
        } else {
            Ok(
                GamePacketView::Binary {
                    magic: PACKET_MAGIC,
                    length: le_value(data.subrange(2, 6)) as u32,
                    command: le_value(data.subrange(6, 8)) as u16,
                    qq_num: le_value(data.subrange(8, 16)) as u64,
                    data: data.skip(HEADER_LEN as int),
                },
            )
        }
    } else {
        Ok(GamePacketView::Text(utf8_lossy(data)))
    }
}

/// The bytes of a packet on the wire.
pub open spec fn spec_build(packet: GamePacketView) -> Seq<u8> {
    match packet {
        GamePacketView::Binary { magic, length, command, qq_num, data } => le_bytes(
            magic as nat,
            2,
        ) + le_bytes(length as nat, 4) + le_bytes(command as nat, 2) + le_bytes(qq_num as nat, 8)
            + data,
        GamePacketView::Text(text) => vstd::utf8::encode_utf8(text),
    }
}

/// The data of a request that names one slot: seven zero bytes, a one, a
/// zero, and the slot.
pub open spec fn slot_request(slot: u8) -> Seq<u8> {
    seq![0u8, 0u8, 0u8, 0u8, 0u8, 0u8, 0u8, 1u8, 0u8, slot]
}

/// The data of a map jump: seven zero bytes, a two, a zero, and the map
/// number, low byte first.
pub open spec fn map_jump_request(map_no: u16) -> Seq<u8> {
    seq![0u8, 0u8, 0u8, 0u8, 0u8, 0u8, 0u8, 2u8, 0u8, (map_no & 0xFF) as u8, (map_no >> 8) as u8]
}

fn slot_request_data(slot: u8) -> (r: Vec<u8>)
    ensures
        r@ == slot_request(slot),
{
    let mut data: Vec<u8> = Vec::new();
    let head: [u8; 9] = [0, 0, 0, 0, 0, 0, 0, 1, 0];
    append_bytes(&mut data, head.as_slice());
    data.push(slot);
    assert(data@ =~= slot_request(slot));
    data
}

impl GamePacket {
    /// Reads one packet.
    ///
    /// Fewer than two bytes are no packet. Bytes that begin with the magic
    /// are a binary packet and need a whole header. Any other bytes are a
    /// text packet.
    pub fn parse(data: &[u8]) -> (r: std::result::Result<GamePacket, WpeError>)
        ensures
            match r {
                Ok(p) => spec_parse(data@) == Ok::<GamePacketView, WpeErrorView>(p@),
                Err(e) => spec_parse(data@) == Err::<GamePacketView, WpeErrorView>(e@),
            },
    {
        if data.len() < 2 {
            return Err(WpeError::PacketParse("Packet too short".to_owned()));
        }
        let magic = read_u16_le(data);
        assert(data@.take(2) =~= data@.subrange(0, 2));
        proof {
            lemma_le_bytes_of_value(data@.subrange(0, 2));
            lemma_le_bytes_of_value(data@.subrange(2, 6));
            lemma_le_bytes_of_value(data@.subrange(6, 8));
            lemma_le_bytes_of_value(data@.subrange(8, 16));
            lemma_ranges();
        }
        if magic == PACKET_MAGIC {
            if data.len() < HEADER_LEN {
                return Err(WpeError::PacketParse("Binary packet too short".to_owned()));
            }
            let length = read_u32_le(slice_subrange(data, 2, data.len()));
            let command = read_u16_le(slice_subrange(data, 6, data.len()));
            let qq_num = read_u64_le(slice_subrange(data, 8, data.len()));
            proof {
                assert(data@.subrange(2, data@.len() as int).take(4) =~= data@.subrange(2, 6));
                assert(data@.subrange(6, data@.len() as int).take(2) =~= data@.subrange(6, 8));
                assert(data@.subrange(8, data@.len() as int).take(8) =~= data@.subrange(8, 16));
            }
            let rest = slice_to_vec(slice_subrange(data, HEADER_LEN, data.len()));
            assert(rest@ =~= data@.skip(HEADER_LEN as int));
            Ok(GamePacket::Binary { magic, length, command, qq_num, data: rest })
        } else {
            Ok(GamePacket::Text(lossy_text(data)))
        }
    }

    /// Writes the packet as it goes over the wire. This never fails.
    pub fn build(&self) -> (r: std::result::Result<Vec<u8>, WpeError>)
        ensures
            r matches Ok(bytes) && bytes@ == spec_build(self@),
    {
        match self {
            GamePacket::Binary { magic, length, command, qq_num, data } => {
                let mut buffer: Vec<u8> = Vec::new();
                append_bytes(&mut buffer, u16_le_bytes(*magic).as_slice());
                append_bytes(&mut buffer, u32_le_bytes(*length).as_slice());
                append_bytes(&mut buffer, u16_le_bytes(*command).as_slice());
                append_bytes(&mut buffer, u64_le_bytes(*qq_num).as_slice());
                append_bytes(&mut buffer, data.as_slice());
                assert(buffer@ =~= spec_build(self@));
                Ok(buffer)
            },
            GamePacket::Text(text) => Ok(text.as_str().as_bytes_vec()),
        }
    }

    /// The request to jump to map `map_no`.
    pub fn build_map_jump(qq_num: u64, map_no: u16) -> (r: Self)
        ensures
            r@ == (GamePacketView::Binary {
                magic: PACKET_MAGIC,
                length: 0x0B,
                command: 0x0003,
                qq_num,
                data: map_jump_request(map_no),
            }),
    {
        let mut data: Vec<u8> = Vec::new();
        let head: [u8; 9] = [0, 0, 0, 0, 0, 0, 0, 2, 0];
        append_bytes(&mut data, head.as_slice());
        let low = (map_no & 0xFF) as u8;
        let high = ((map_no >> 8) & 0xFF) as u8;
        assert(((map_no >> 8) & 0xFF) as u8 == (map_no >> 8) as u8) by (bit_vector);
        data.push(low);
        data.push(high);
        assert(data@ =~= map_jump_request(map_no));
        GamePacket::Binary { magic: PACKET_MAGIC, length: 0x0B, command: 0x0003, qq_num, data }
    }

    /// The request to put the pet in slot `spirit_pos` into storage.
    pub fn build_pet_storage(qq_num: u64, spirit_pos: u8) -> (r: Self)
        ensures
            r@ == (GamePacketView::Binary {
                magic: PACKET_MAGIC,
                length: 0x0B,
                command: 0x0014,
                qq_num,
                data: slot_request(spirit_pos),
            }),
    {
        GamePacket::Binary {
            magic: PACKET_MAGIC,
            length: 0x0B,
            command: 0x0014,
            qq_num,
            data: slot_request_data(spirit_pos),
        }
    }

    /// The text packet that makes a wild pet flee.
    pub fn build_pet_escape() -> (r: Self)
        ensures
            r@ == GamePacketView::Text("System_宠物逃跑"@),
    {
        GamePacket::Text("System_宠物逃跑".to_owned())
    }

    /// The request to train the pet in slot `spirit_pos` at home.
    pub fn build_home_training(qq_num: u64, spirit_pos: u8) -> (r: Self)
        ensures
            r@ == (GamePacketView::Binary {
                magic: PACKET_MAGIC,
                length: 0x0B,
                command: 0x0052,
                qq_num,
                data: slot_request(spirit_pos),
            }),
    {
        GamePacket::Binary {
            magic: PACKET_MAGIC,
            length: 0x0B,
            command: 0x0052,
            qq_num,
            data: slot_request_data(spirit_pos),
        }
    }
}

/// Writing and reading are inverse for binary packets: a packet with the
/// magic number is read back from its bytes as it was.
pub proof fn lemma_binary_round_trip(packet: GamePacketView)
    requires
        packet matches GamePacketView::Binary { magic, .. } && magic == PACKET_MAGIC,
    ensures
        spec_parse(spec_build(packet)) == Ok::<GamePacketView, WpeErrorView>(packet),
{
    lemma_ranges();
    match packet {
        GamePacketView::Binary { magic, length, command, qq_num, data } => {
            let bytes = spec_build(packet);
            let m = le_bytes(magic as nat, 2);
            let l = le_bytes(length as nat, 4);
            let c = le_bytes(command as nat, 2);
            let q = le_bytes(qq_num as nat, 8);
            lemma_le_round_trip(magic as nat, 2);
            lemma_le_round_trip(length as nat, 4);
            lemma_le_round_trip(command as nat, 2);
            lemma_le_round_trip(qq_num as nat, 8);
            assert(bytes.len() == 16 + data.len());
            assert(bytes.subrange(0, 2) =~= m);
            assert(bytes.subrange(2, 6) =~= l);
            assert(bytes.subrange(6, 8) =~= c);
            assert(bytes.subrange(8, 16) =~= q);
            assert(bytes.skip(16) =~= data);
        },
        GamePacketView::Text(_) => {},
    }
}

/// The two bytes of the magic number are no beginning of a text: the second
/// is a byte that only continues a character.
pub proof fn lemma_text_never_begins_with_magic(bytes: Seq<u8>)
    requires
        bytes.len() >= 2,
        vstd::utf8::valid_utf8(bytes),
    ensures
        le_value(bytes.subrange(0, 2)) != PACKET_MAGIC,
{
    let head = bytes.subrange(0, 2);
    reveal_with_fuel(le_value, 3);
    assert(head.drop_first()[0] == bytes[1]);
    assert(head.drop_first().drop_first().len() == 0);
    assert(le_value(head) == bytes[0] as nat + 256 * (bytes[1] as nat));
    if le_value(head) == PACKET_MAGIC {
        assert(bytes[0] == 0x27 && bytes[1] == 0x95);
        let rest = vstd::utf8::pop_first_scalar(bytes);
        assert(rest =~= bytes.subrange(1, bytes.len() as int));
        assert(rest[0] == bytes[1]);
        assert(vstd::utf8::valid_utf8(rest));
        assert(vstd::utf8::valid_first_scalar(rest));
        assert(false);
    }
}

/// Writing and reading are inverse for text packets of two bytes or more.
/// Shorter texts are no packets.
pub proof fn lemma_text_round_trip(text: Seq<char>)
    requires
        vstd::utf8::encode_utf8(text).len() >= 2,
    ensures
        spec_parse(spec_build(GamePacketView::Text(text))) == Ok::<GamePacketView, WpeErrorView>(
            GamePacketView::Text(text),
        ),
{
    let bytes = vstd::utf8::encode_utf8(text);
    vstd::utf8::encode_utf8_valid_utf8(text);
    vstd::utf8::encode_utf8_decode_utf8(text);
    lemma_text_never_begins_with_magic(bytes);
}

} // verus!
