//! HCI (Host Controller Interface) packet framing for the Bluetooth
//! co-processor, using the UART (H4) transport: every packet starts with a
//! one-byte packet-type indicator.
//!
//! - `0x01`: HCI Command packet (host to controller)
//! - `0x04`: HCI Event packet (controller to host)
use vstd::prelude::*;

verus! {

// ---------------------------------------------------------------------------
// The fixed-capacity byte buffer of the `heapless` crate
// ---------------------------------------------------------------------------

#[verifier::external_type_specification]
#[verifier::external_body]
#[verifier::reject_recursive_types(T)]
pub struct ExHeaplessVec<T, const N: usize>(heapless::Vec<T, N>);

/// The bytes held by a 64-byte `heapless::Vec`, in order.
pub uninterp spec fn frame_bytes(v: heapless::Vec<u8, 64>) -> Seq<u8>;

/// Capacity of an H4 frame buffer, in bytes.
pub const FRAME_CAPACITY: usize = 64;

/// `heapless::Vec::new`: an empty buffer.
#[verifier::external_body]
fn frame_new() -> (v: heapless::Vec<u8, 64>)
    ensures
        frame_bytes(v) == Seq::<u8>::empty(),
{
    heapless::Vec::new()
}

/// `heapless::Vec::push`: appends `b` when fewer than 64 bytes are held and
/// returns `Ok(())`; otherwise leaves the buffer unchanged and hands `b` back.
#[verifier::external_body]
fn frame_push(v: &mut heapless::Vec<u8, 64>, b: u8) -> (r: Result<(), u8>)
    ensures
        r is Ok <==> frame_bytes(*old(v)).len() < 64,
        r is Ok ==> frame_bytes(*final(v)) == frame_bytes(*old(v)).push(b),
        r matches Err(x) ==> x == b && frame_bytes(*final(v)) == frame_bytes(*old(v)),
{
    v.push(b)
}

/// `heapless::Vec::as_slice`: the held bytes, in order.
#[verifier::external_body]
fn frame_as_slice(v: &heapless::Vec<u8, 64>) -> (s: &[u8])
    ensures
        s@ == frame_bytes(*v),
{
    v.as_slice()
}

// ---------------------------------------------------------------------------
// Public types
// ---------------------------------------------------------------------------

/// HCI commands the host can send to the controller.
#[derive(Debug, Clone, Copy, PartialEq, Eq)]
pub enum HciCommand {
    /// HCI_Reset: OGF=0x03 (Controller & Baseband), OCF=0x0003.
    Reset,
}

/// The 16-bit opcode `(OGF << 10) | OCF` of a command.
pub open spec fn command_opcode(cmd: HciCommand) -> u16 {
    match cmd {
        HciCommand::Reset => 0x0C03u16,
    }
}

/// The parameter bytes of a command.
pub open spec fn command_params(cmd: HciCommand) -> Seq<u8> {
    match cmd {
        HciCommand::Reset => Seq::<u8>::empty(),
    }
}

/// H4 command frame: `[0x01, opcode_lo, opcode_hi, param_len, ...params]`.
pub open spec fn command_frame(opcode: u16, params: Seq<u8>) -> Seq<u8> {
    seq![0x01u8, (opcode % 256) as u8, (opcode / 256) as u8, params.len() as u8] + params
}

impl HciCommand {
    /// Return the 16-bit opcode: `(OGF << 10) | OCF`.
    pub fn opcode(self) -> (r: u16)
        ensures
            r == command_opcode(self),
    {
        match self {
            HciCommand::Reset => 0x0C03,
        }
    }

    /// Return the parameter bytes for this command (empty for Reset).
    pub fn params(self) -> (r: heapless::Vec<u8, 64>)
        ensures
            frame_bytes(r) == command_params(self),
    {
        match self {
            HciCommand::Reset => frame_new(),
        }
    }
}

/// A command given by its raw opcode and parameter bytes.
pub struct HciRawCommand<'a> {
    /// The 16-bit opcode `(OGF << 10) | OCF`.
    pub opcode: u16,
    /// Parameter bytes, sent after the parameter-length byte.
    pub params: &'a [u8],
}

/// HCI event codes (controller to host).
#[derive(Debug, Clone, Copy, PartialEq, Eq)]
pub enum HciEventCode {
    /// CommandComplete event (0x0E): reports the result of a command.
    CommandComplete,
}

impl HciEventCode {
    /// The event code byte as it appears on the wire.
    pub fn as_u8(self) -> (r: u8)
        ensures
            self == HciEventCode::CommandComplete ==> r == 0x0E,
    {
        match self {
            HciEventCode::CommandComplete => 0x0E,
        }
    }
}

/// Decoded HCI events.
#[derive(Debug, PartialEq, Eq)]
pub enum HciEvent {
    /// A previously issued command completed.
    CommandComplete {
        /// Return status; `0x00` means success.
        status: u8,
    },
}

/// Errors that can occur when parsing or framing an HCI packet.
#[derive(Debug, PartialEq, Eq)]
pub enum HciError {
    /// The byte slice is shorter than the minimum valid packet length.
    PacketTooShort,
    /// The first byte is not a recognised H4 packet-type indicator.
    UnknownPacketType(u8),
    /// Header and parameters do not fit in the 64-byte frame buffer.
    CommandTooLong,
}

/// Decoding of the payload of an H4 event packet (type byte already removed).
pub open spec fn event_payload_result(p: Seq<u8>) -> Result<HciEvent, HciError> {
    if p.len() == 0 {
        Err(HciError::PacketTooShort)
    } else if p[0] == 0x0E {
        if p.len() < 6 {
            Err(HciError::PacketTooShort)
        } else {
            Ok(HciEvent::CommandComplete { status: p[5] })
        }
    } else {
        Err(HciError::PacketTooShort)
    }
}

/// Decoding of a whole H4 packet.
pub open spec fn packet_result(b: Seq<u8>) -> Result<HciEvent, HciError> {
    if b.len() < 2 {
        Err(HciError::PacketTooShort)
    } else if b[0] == 0x04 {
        event_payload_result(b.drop_first())
    } else {
        Err(HciError::UnknownPacketType(b[0]))
    }
}

/// Zero-size marker struct that owns the HCI framing logic.
pub struct HciPacket;

impl HciPacket {
    /// Append `bytes` to `out`, ignoring bytes that do not fit.
    fn push_all(out: &mut heapless::Vec<u8, 64>, bytes: &[u8])
        requires
            frame_bytes(*old(out)).len() + bytes@.len() <= 64,
        ensures
            frame_bytes(*final(out)) == frame_bytes(*old(out)) + bytes@,
    {
        let ghost start = frame_bytes(*out);
        let mut i: usize = 0;
        while i < bytes.len()
            invariant
                i <= bytes@.len(),
                start.len() + bytes@.len() <= 64,
                frame_bytes(*out) == start + bytes@.subrange(0, i as int),
            decreases bytes@.len() - i,
        {
            let _ = frame_push(out, bytes[i]);
            assert(bytes@.subrange(0, i + 1) == bytes@.subrange(0, i as int).push(bytes@[i as int]));
            i = i + 1;
        }
        assert(bytes@.subrange(0, bytes@.len() as int) == bytes@);
    }

    /// Serialise an HCI command as an H4-framed byte vector.
    ///
    /// Format: `[0x01, opcode_lo, opcode_hi, param_len, ...params]`
    pub fn from_command(cmd: HciCommand) -> (r: heapless::Vec<u8, 64>)
        ensures
            frame_bytes(r) == command_frame(command_opcode(cmd), command_params(cmd)),
    {
        let mut out = frame_new();
        let opcode = cmd.opcode();
        let params = cmd.params();
        let pbytes = frame_as_slice(&params);

        let _ = frame_push(&mut out, 0x01);
        let _ = frame_push(&mut out, (opcode & 0xFF) as u8);
        let _ = frame_push(&mut out, (opcode >> 8) as u8);
        let _ = frame_push(&mut out, pbytes.len() as u8);
        assert((opcode & 0xFF) as u8 == (opcode % 256) as u8 && (opcode >> 8) as u8 == (opcode
            / 256) as u8) by (bit_vector);
        Self::push_all(&mut out, pbytes);
        out
    }

    /// Serialise a raw command as an H4-framed byte vector.
    ///
    /// # Errors
    ///
    /// Returns [`HciError::CommandTooLong`] when the four header bytes and the
    /// parameters do not fit in the 64-byte frame; nothing is truncated.
    pub fn from_raw_command(cmd: HciRawCommand) -> (r: Result<heapless::Vec<u8, 64>, HciError>)
        ensures
            cmd.params@.len() <= 60 <==> r is Ok,
            r matches Ok(v) ==> frame_bytes(v) == command_frame(cmd.opcode, cmd.params@),
            r matches Err(e) ==> e == HciError::CommandTooLong,
    {
        if cmd.params.len() > FRAME_CAPACITY - 4 {
            return Err(HciError::CommandTooLong);
        }
        let mut out = frame_new();
        let opcode = cmd.opcode;
        let _ = frame_push(&mut out, 0x01);
        let _ = frame_push(&mut out, (opcode & 0xFF) as u8);
        let _ = frame_push(&mut out, (opcode >> 8) as u8);
        let _ = frame_push(&mut out, cmd.params.len() as u8);
        assert((opcode & 0xFF) as u8 == (opcode % 256) as u8 && (opcode >> 8) as u8 == (opcode
            / 256) as u8) by (bit_vector);
        Self::push_all(&mut out, cmd.params);
        Ok(out)
    }

    /// Parse a raw H4-framed byte slice into an [`HciEvent`].
    ///
    /// # Errors
    ///
    /// Returns [`HciError::PacketTooShort`] when fewer than 2 bytes are
    /// available, or [`HciError::UnknownPacketType`] for unrecognised type
    /// indicators.
    pub fn parse(bytes: &[u8]) -> (r: Result<HciEvent, HciError>)
        ensures
            r == packet_result(bytes@),
    {
        if bytes.len() < 2 {
            return Err(HciError::PacketTooShort);
        }
        match bytes[0] {
            0x04 => {
                let payload = vstd::slice::slice_subrange(bytes, 1, bytes.len());
                assert(payload@ == bytes@.drop_first());
                Self::parse_event(payload)
            },
            other => Err(HciError::UnknownPacketType(other)),
        }
    }

    /// Parse the payload of an H4 event packet (packet-type byte already consumed).
    fn parse_event(bytes: &[u8]) -> (r: Result<HciEvent, HciError>)
        ensures
            r == event_payload_result(bytes@),
    {
        if bytes.len() == 0 {
            return Err(HciError::PacketTooShort);
        }
        match bytes[0] {
            0x0E => {
                // [event_code=0x0E, param_len, num_hci_cmds, opcode_lo, opcode_hi, status]
                if bytes.len() < 6 {
                    return Err(HciError::PacketTooShort);
                }
                let status = bytes[5];
                Ok(HciEvent::CommandComplete { status })
            },
            _ => Err(HciError::PacketTooShort),
        }
    }
}

} // verus!
