//! Pure encoding and decoding of the display device's command packets, the
//! validation of its acknowledgement byte, and the fixed perceptual scaling
//! from a linear volume fraction to the 0..=100 display level.

use vstd::prelude::*;

verus! {

/// Payload length of one raw-HID report; a full packet carries one extra
/// leading report-id byte.
pub const REPORT_LENGTH: usize = 32;

/// Fixed marker identifying the custom protocol, the ASCII letter `A`.
pub const PROTOCOL_MARKER: u8 = 0x41;

/// Opcode of the only command: set the displayed volume.
pub const OPCODE_SET_VOLUME: u8 = 0x01;

/// Largest volume level the protocol can carry.
pub const MAX_LEVEL: u8 = 100;

/// A linear volume fraction in `[0, 1]` is carried as parts of this scale,
/// so `VOLUME_SCALE` stands for full volume.
pub const VOLUME_SCALE: u32 = 1000000;

/// Errors surfaced when talking to a display device.
#[derive(Debug)]
pub enum VolumeError {
    /// The requested level lies outside 0..=100; nothing was sent.
    InvalidVolumeError,
    /// The transport failed while writing to or reading from the device.
    ReadError(String),
    /// The device answered, but its status byte did not signal success.
    Unsuccessful,
}

/// The header fields a decoder recovers from a command packet.
#[derive(Clone, Copy, PartialEq, Eq, Structural, Debug)]
pub struct DecodedCommand {
    /// Command opcode, [`OPCODE_SET_VOLUME`] for a set-volume packet.
    pub opcode: u8,
    /// Volume level carried in the packet.
    pub level: u8,
    /// Mute flag byte, `0` or `1` in packets this crate produces.
    pub mute: u8,
}

/// The byte that encodes a mute flag.
pub open spec fn mute_byte(muted: bool) -> u8 {
    if muted {
        1u8
    } else {
        0u8
    }
}

/// The exact 33-byte wire image of a set-volume command: a zero report id,
/// the protocol marker, the opcode, the level, the mute byte, and reserved
/// zero padding up to the fixed report length.
pub open spec fn encoded_packet(level: u8, muted: bool) -> Seq<u8> {
    seq![0u8, PROTOCOL_MARKER, OPCODE_SET_VOLUME, level, mute_byte(muted)]
        + Seq::new(28, |i: int| 0u8)
}

/// What a decoder recovers from a packet: the header fields, provided the
/// buffer is long enough and carries the protocol marker. Only the first
/// five bytes take part.
pub open spec fn decoded_packet(data: Seq<u8>) -> Option<DecodedCommand> {
    if data.len() >= 5 && data[0] == 0u8 && data[1] == PROTOCOL_MARKER {
        Some(DecodedCommand { opcode: data[2], level: data[3], mute: data[4] })
    } else {
        None
    }
}

/// Whether a device response signals a successful acknowledgement.
pub open spec fn ack_ok(resp: Seq<u8>) -> bool {
    resp.len() > 0 && resp[0] == 1u8
}

/// Encodes a set-volume command into its fixed-size packet, rejecting
/// levels above [`MAX_LEVEL`] before anything touches the wire.
pub fn encode_set_volume(level: u8, muted: bool) -> (r: Result<Vec<u8>, VolumeError>)
    ensures
        level <= MAX_LEVEL ==> (r matches Ok(buf) && buf@ == encoded_packet(level, muted)),
        level > MAX_LEVEL ==> (r matches Err(e) && e is InvalidVolumeError),
{
    if level > MAX_LEVEL {
        return Err(VolumeError::InvalidVolumeError);
    }
    let mut buf: Vec<u8> = Vec::new();
    buf.push(0x00);
    buf.push(PROTOCOL_MARKER);
    buf.push(OPCODE_SET_VOLUME);
    buf.push(level);
    buf.push(if muted { 1 } else { 0 });
    assert(forall|i: int| 0 <= i < 5 ==> buf@[i] == encoded_packet(level, muted)[i]);
    while buf.len() < 33
        invariant
            5 <= buf@.len() <= 33,
            forall|i: int| 0 <= i < buf@.len() ==> buf@[i] == encoded_packet(level, muted)[i],
        decreases 33 - buf@.len(),
    {
        buf.push(0x00);
    }
    assert(buf@ =~= encoded_packet(level, muted));
    Ok(buf)
}

/// Decodes the header of a command packet; reads no byte past the fifth.
pub fn decode_packet(data: &[u8]) -> (r: Option<DecodedCommand>)
    ensures
        r == decoded_packet(data@),
{
    if data.len() >= 5 && data[0] == 0x00 && data[1] == PROTOCOL_MARKER {
        Some(DecodedCommand { opcode: data[2], level: data[3], mute: data[4] })
    } else {
        None
    }
}

/// Validates the device's acknowledgement: the first response byte must
/// equal `0x01`; any other response is an unsuccessful acknowledgement.
pub fn check_response(resp: &[u8]) -> (r: Result<(), VolumeError>)
    ensures
        r is Ok <==> ack_ok(resp@),
        r matches Err(e) ==> e is Unsuccessful,
{
    if resp.len() >= 1 && resp[0] == 0x01 {
        Ok(())
    } else {
        Err(VolumeError::Unsuccessful)
    }
}

/// The fourth power of an integer.
pub open spec fn pow4(x: int) -> int {
    x * x * x * x
}

/// Whether display level `l` is the correct perceptual compression of the
/// linear volume fraction `v / VOLUME_SCALE`: the protocol fixes
/// `l = round(100 * (v / VOLUME_SCALE)^(1/4))`, written here without roots
/// by raising both bounds of the rounding interval `[l - 1/2, l + 1/2)` to
/// the fourth power and clearing denominators (`16` is `2^4` and
/// `1600000000` is `16 * 100^4`).
pub open spec fn level_rounds_to(v: int, l: int) -> bool {
    &&& 0 <= l <= 100
    &&& (l == 0 || pow4(2 * l - 1) * (VOLUME_SCALE as int) <= 1600000000 * v)
    &&& (l == 100 || 1600000000 * v < pow4(2 * l + 1) * (VOLUME_SCALE as int))
}

/// Law: the fourth power is monotone over the non-negative integers.
proof fn lemma_pow4_monotone(x: int, y: int)
    by (nonlinear_arith)
    requires
        0 <= x <= y,
    ensures
        pow4(x) <= pow4(y),
{
}

/// Law: at most one display level satisfies the rounding characterisation
/// for a given volume, so [`level_from_volume`]'s contract pins its result.
pub proof fn lemma_level_unique(v: int, l1: int, l2: int)
    requires
        level_rounds_to(v, l1),
        level_rounds_to(v, l2),
    ensures
        l1 == l2,
{
    if l1 < l2 {
        lemma_pow4_monotone(2 * l1 + 1, 2 * l2 - 1);
        assert(false);
    }
    if l2 < l1 {
        lemma_pow4_monotone(2 * l2 + 1, 2 * l1 - 1);
        assert(false);
    }
}

/// Maps a linear volume fraction, given in parts of [`VOLUME_SCALE`], to
/// the display level `round(100 * (v / VOLUME_SCALE)^(1/4))`. The curve is
/// a fixed part of the device protocol.
pub fn level_from_volume(v: u32) -> (l: u8)
    requires
        v <= VOLUME_SCALE,
    ensures
        level_rounds_to(v as int, l as int),
{
    let rhs: u64 = 1600000000u64 * (v as u64);
    let mut l: u8 = 0;
    let mut done = false;
    while l < 100 && !done
        invariant
            l <= 100,
            rhs == 1600000000 * (v as int),
            l > 0 ==> pow4(2 * (l as int) - 1) * (VOLUME_SCALE as int) <= rhs,
            done ==> rhs < pow4(2 * (l as int) + 1) * (VOLUME_SCALE as int),
        decreases 100 - l, (if done { 0int } else { 1int }),
    {
        let a: u64 = 2 * ((l + 1) as u64) - 1;
        assert(a * a <= 40401) by (nonlinear_arith)
            requires
                a <= 201,
        ;
        let a2: u64 = a * a;
        assert(a2 * a2 <= 1632240801) by (nonlinear_arith)
            requires
                a2 <= 40401,
        ;
        let a4: u64 = a2 * a2;
        let lhs: u64 = a4 * (VOLUME_SCALE as u64);
        assert(a4 as int == pow4(a as int)) by (nonlinear_arith)
            requires
                a2 == a * a,
                a4 == a2 * a2,
        ;
        if lhs <= rhs {
            l = l + 1;
        } else {
            done = true;
        }
    }
    l
}

/// Law: encoding a valid set-volume command and decoding the resulting
/// buffer recovers the opcode, the level, and the mute byte, and the buffer
/// is exactly one report id byte plus [`REPORT_LENGTH`] payload bytes long.
pub proof fn lemma_encode_decode_round_trip(level: u8, muted: bool)
    requires
        level <= MAX_LEVEL,
    ensures
        encoded_packet(level, muted).len() == REPORT_LENGTH + 1,
        decoded_packet(encoded_packet(level, muted)) == Some(
            DecodedCommand { opcode: OPCODE_SET_VOLUME, level, mute: mute_byte(muted) },
        ),
{
}

/// Law: decoding depends on the first five bytes alone; the reserved tail
/// of a packet is never read.
pub proof fn lemma_decode_reads_prefix_only(d1: Seq<u8>, d2: Seq<u8>)
    requires
        d1.len() >= 5,
        d2.len() >= 5,
        d1.subrange(0, 5) == d2.subrange(0, 5),
    ensures
        decoded_packet(d1) == decoded_packet(d2),
{
    assert forall|i: int| 0 <= i < 5 implies d1[i] == d2[i] by {
        assert(d1[i] == d1.subrange(0, 5)[i]);
        assert(d2[i] == d2.subrange(0, 5)[i]);
    }
}

} // verus!
