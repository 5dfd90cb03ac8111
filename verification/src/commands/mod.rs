pub mod get_firmware_version;
pub mod probe_memory_rw;

use crate::{queue_step, LoongsonEjtagDevice, SendError};
use vstd::slice::slice_subrange;
use vstd::prelude::*;

verus! {

/// Command ID for Loongson EJTAG commands.
///
/// Command ID takes up 6 bits at the MSB side in the first u16 of a command.
/// Some commands have become obsolete and are no longer used by host/no longer implemented by
/// newer probes.
#[derive(Clone, Copy, Debug, PartialEq, Eq, Structural)]
pub enum CommandId {
    ProbeMemoryRW,
    IoManipulation,
    IrRW,
    DrRW,
    LoopbackTest,
    FastWriteWithFastdata,
    FastWrite,
    FastReadWithFastdata,
    FastRead,
    GetFirmwareVersion,
}

impl CommandId {
    /// The numeric code of the command, as placed in the command header.
    pub open spec fn spec_code(self) -> u16 {
        match self {
            CommandId::ProbeMemoryRW => 0x01,
            CommandId::IoManipulation => 0x03,
            CommandId::IrRW => 0x04,
            CommandId::DrRW => 0x05,
            CommandId::LoopbackTest => 0x08,
            CommandId::FastWriteWithFastdata => 0x0c,
            CommandId::FastWrite => 0x0d,
            CommandId::FastReadWithFastdata => 0x0e,
            CommandId::FastRead => 0x0f,
            CommandId::GetFirmwareVersion => 0x1f,
        }
    }

    /// Returns the numeric code of the command.
    pub fn code(&self) -> (r: u16)
        ensures
            r == self.spec_code(),
    {
        match self {
            CommandId::ProbeMemoryRW => 0x01,
            CommandId::IoManipulation => 0x03,
            CommandId::IrRW => 0x04,
            CommandId::DrRW => 0x05,
            CommandId::LoopbackTest => 0x08,
            CommandId::FastWriteWithFastdata => 0x0c,
            CommandId::FastWrite => 0x0d,
            CommandId::FastReadWithFastdata => 0x0e,
            CommandId::FastRead => 0x0f,
            CommandId::GetFirmwareVersion => 0x1f,
        }
    }
}

/// Every command code fits in the 6-bit command-id field of the header, and
/// distinct commands have distinct codes.
pub proof fn lemma_command_codes_fit_and_differ(a: CommandId, b: CommandId)
    ensures
        a.spec_code() < 64,
        a.spec_code() == b.spec_code() ==> a == b,
{
}


/// The first 16-bit word of every command.
///
/// Layout: `core_count` in bits 6..=0, `mem_rw_is_read` in bit 0 (the two
/// overlap: different commands read the low bits differently), `is_64_bit` in
/// bit 7, `immediate_read` in bit 8, `read_tdo` in bit 9 and `command_id` in
/// bits 15..=10.
#[derive(Clone, Copy, Debug)]
pub struct CommandHeader(pub u16);

impl CommandHeader {
    /// Bits `lsb..=msb` of the header, shifted down to bit 0.
    pub fn bit_range(&self, msb: u16, lsb: u16) -> (r: u16)
        requires
            valid_range(msb, lsb),
        ensures
            r == get_bits(self.0, msb, lsb),
    {
        (self.0 << (15 - msb)) >> (15 - msb + lsb)
    }

    /// Replaces bits `lsb..=msb` of the header with the low bits of `value`.
    pub fn set_bit_range(&mut self, msb: u16, lsb: u16, value: u16)
        requires
            valid_range(msb, lsb),
        ensures
            final(self).0 == set_bits(old(self).0, msb, lsb, value),
    {
        let mask: u16 = ((0xffffu16 << (15 - msb)) >> (15 - msb + lsb)) << lsb;
        self.0 = (self.0 & !mask) | ((value << lsb) & mask);
    }

    /// Number of cores addressed (bits 6..=0).
    pub fn core_count(&self) -> (r: u16)
        ensures
            r == get_bits(self.0, 6, 0),
    {
        self.bit_range(6, 0)
    }

    /// Sets the number of cores addressed (bits 6..=0).
    pub fn set_core_count(&mut self, value: u16)
        ensures
            final(self).0 == set_bits(old(self).0, 6, 0, value),
    {
        self.set_bit_range(6, 0, value)
    }

    /// Whether a probe memory access reads (bit 0).
    pub fn mem_rw_is_read(&self) -> (r: bool)
        ensures
            r == (get_bits(self.0, 0, 0) != 0),
    {
        self.bit_range(0, 0) != 0
    }

    /// Sets whether a probe memory access reads (bit 0).
    pub fn set_mem_rw_is_read(&mut self, value: bool)
        ensures
            final(self).0 == set_bits(old(self).0, 0, 0, if value { 1 } else { 0 }),
    {
        self.set_bit_range(0, 0, if value { 1 } else { 0 })
    }

    /// Whether the access is 64 bits wide (bit 7).
    pub fn is_64_bit(&self) -> (r: bool)
        ensures
            r == (get_bits(self.0, 7, 7) != 0),
    {
        self.bit_range(7, 7) != 0
    }

    /// Sets whether the access is 64 bits wide (bit 7).
    pub fn set_is_64_bit(&mut self, value: bool)
        ensures
            final(self).0 == set_bits(old(self).0, 7, 7, if value { 1 } else { 0 }),
    {
        self.set_bit_range(7, 7, if value { 1 } else { 0 })
    }

    /// Whether queued data is to be sent back at once (bit 8).
    pub fn immediate_read(&self) -> (r: bool)
        ensures
            r == (get_bits(self.0, 8, 8) != 0),
    {
        self.bit_range(8, 8) != 0
    }

    /// Sets whether queued data is to be sent back at once (bit 8).
    pub fn set_immediate_read(&mut self, value: bool)
        ensures
            final(self).0 == set_bits(old(self).0, 8, 8, if value { 1 } else { 0 }),
    {
        self.set_bit_range(8, 8, if value { 1 } else { 0 })
    }

    /// Whether TDO is captured (bit 9).
    pub fn read_tdo(&self) -> (r: bool)
        ensures
            r == (get_bits(self.0, 9, 9) != 0),
    {
        self.bit_range(9, 9) != 0
    }

    /// Sets whether TDO is captured (bit 9).
    pub fn set_read_tdo(&mut self, value: bool)
        ensures
            final(self).0 == set_bits(old(self).0, 9, 9, if value { 1 } else { 0 }),
    {
        self.set_bit_range(9, 9, if value { 1 } else { 0 })
    }

    /// The command id code (bits 15..=10).
    pub fn command_id(&self) -> (r: u16)
        ensures
            r == get_bits(self.0, 15, 10),
    {
        self.bit_range(15, 10)
    }

    /// Sets the command id code (bits 15..=10).
    pub fn set_command_id(&mut self, value: u16)
        ensures
            final(self).0 == set_bits(old(self).0, 15, 10, value),
    {
        self.set_bit_range(15, 10, value)
    }
}

/// The value held in bits `lsb..=msb` of `word`, shifted down to bit 0.
pub open spec fn get_bits(word: u16, msb: u16, lsb: u16) -> u16 {
    (word << ((15 - msb) as u16)) >> ((15 - msb + lsb) as u16)
}

/// The mask that covers bits `lsb..=msb` of a 16-bit word.
pub open spec fn field_mask(msb: u16, lsb: u16) -> u16 {
    ((0xffffu16 << ((15 - msb) as u16)) >> ((15 - msb + lsb) as u16)) << lsb
}

/// `word` with bits `lsb..=msb` replaced by the low bits of `value`.
pub open spec fn set_bits(word: u16, msb: u16, lsb: u16, value: u16) -> u16 {
    (word & !field_mask(msb, lsb)) | ((value << lsb) & field_mask(msb, lsb))
}

/// A range of bits `lsb..=msb` inside a 16-bit word.
pub open spec fn valid_range(msb: u16, lsb: u16) -> bool {
    lsb <= msb < 16
}

/// Reading a field back after writing it gives the written value, cut to the
/// field's width.
pub proof fn lemma_get_after_set(word: u16, msb: u16, lsb: u16, value: u16)
    requires
        valid_range(msb, lsb),
    ensures
        get_bits(set_bits(word, msb, lsb, value), msb, lsb) == get_bits(value, (msb - lsb) as u16, 0),
{
    assert(get_bits(set_bits(word, msb, lsb, value), msb, lsb) == get_bits(value, (msb - lsb) as u16, 0))
        by (bit_vector)
        requires
            lsb <= msb < 16,
    ;
}

/// Writing a field leaves every field that does not overlap it unchanged.
pub proof fn lemma_set_keeps_other_fields(
    word: u16,
    msb: u16,
    lsb: u16,
    value: u16,
    other_msb: u16,
    other_lsb: u16,
)
    requires
        valid_range(msb, lsb),
        valid_range(other_msb, other_lsb),
        other_msb < lsb || msb < other_lsb,
    ensures
        get_bits(set_bits(word, msb, lsb, value), other_msb, other_lsb) == get_bits(
            word,
            other_msb,
            other_lsb,
        ),
{
    assert(get_bits(set_bits(word, msb, lsb, value), other_msb, other_lsb) == get_bits(
        word,
        other_msb,
        other_lsb,
    )) by (bit_vector)
        requires
            lsb <= msb < 16,
            other_lsb <= other_msb < 16,
            other_msb < lsb || msb < other_lsb,
    ;
}

/// Writing back the value a field already holds changes nothing.
pub proof fn lemma_set_current_value(word: u16, msb: u16, lsb: u16)
    requires
        valid_range(msb, lsb),
    ensures
        set_bits(word, msb, lsb, get_bits(word, msb, lsb)) == word,
{
    assert(set_bits(word, msb, lsb, get_bits(word, msb, lsb)) == word) by (bit_vector)
        requires
            lsb <= msb < 16,
    ;
}

/// Little-endian bytes of a 16-bit value.
pub open spec fn le_u16(v: u16) -> Seq<u8> {
    seq![(v & 0xff) as u8, (v >> 8) as u8]
}

/// Little-endian bytes of a 32-bit value.
pub open spec fn le_u32(v: u32) -> Seq<u8> {
    seq![(v & 0xff) as u8, ((v >> 8) & 0xff) as u8, ((v >> 16) & 0xff) as u8, (v >> 24) as u8]
}

/// The 32-bit value whose little-endian bytes are the first four of `b`.
pub open spec fn u32_from_le(b: Seq<u8>) -> u32 {
    (b[0] as u32) | ((b[1] as u32) << 8u32) | ((b[2] as u32) << 16u32) | ((b[3] as u32) << 24u32)
}

/// Decoding the little-endian bytes of a value gives the value back.
pub proof fn lemma_u32_le_roundtrip(v: u32)
    ensures
        le_u32(v).len() == 4,
        u32_from_le(le_u32(v)) == v,
{
    assert(((v & 0xff) as u8 as u32) | ((((v >> 8) & 0xff) as u8 as u32) << 8u32) | ((((v >> 16)
        & 0xff) as u8 as u32) << 16u32) | (((v >> 24) as u8 as u32) << 24u32) == v) by (bit_vector);
}

/// Encoding the value decoded from four bytes gives the bytes back.
pub proof fn lemma_le_u32_roundtrip(b: Seq<u8>)
    requires
        b.len() == 4,
    ensures
        le_u32(u32_from_le(b)) == b,
{
    let (b0, b1, b2, b3) = (b[0], b[1], b[2], b[3]);
    let v = u32_from_le(b);
    assert(((v & 0xff) as u8) == b0 && (((v >> 8) & 0xff) as u8) == b1 && (((v >> 16) & 0xff) as u8)
        == b2 && ((v >> 24) as u8) == b3) by (bit_vector)
        requires
            v == (b0 as u32) | ((b1 as u32) << 8u32) | ((b2 as u32) << 16u32) | ((b3 as u32) << 24u32),
    ;
    assert(le_u32(v) =~= b);
}

/// Writes the little-endian bytes of `v` at `at`.
pub fn write_le_u16(buffer: &mut [u8], at: usize, v: u16)
    requires
        at + 2 <= old(buffer)@.len(),
    ensures
        final(buffer)@ == old(buffer)@.update(at as int, le_u16(v)[0]).update(at + 1, le_u16(v)[1]),
{
    buffer[at] = (v & 0xff) as u8;
    buffer[at + 1] = (v >> 8) as u8;
}

/// Writes the little-endian bytes of `v` at `at`.
pub fn write_le_u32(buffer: &mut [u8], at: usize, v: u32)
    requires
        at + 4 <= old(buffer)@.len(),
    ensures
        final(buffer)@ == old(buffer)@.update(at as int, le_u32(v)[0]).update(at + 1, le_u32(v)[1]).update(
            at + 2,
            le_u32(v)[2],
        ).update(at + 3, le_u32(v)[3]),
{
    buffer[at] = (v & 0xff) as u8;
    buffer[at + 1] = ((v >> 8) & 0xff) as u8;
    buffer[at + 2] = ((v >> 16) & 0xff) as u8;
    buffer[at + 3] = (v >> 24) as u8;
}

/// Reads a little-endian 32-bit value from four bytes.
pub fn read_le_u32(b: &[u8]) -> (r: u32)
    requires
        b@.len() == 4,
    ensures
        r == u32_from_le(b@),
{
    (b[0] as u32) | ((b[1] as u32) << 8u32) | ((b[2] as u32) << 16u32) | ((b[3] as u32) << 24u32)
}

/// The bytes a reply carries, or `None` when nothing was read.
pub open spec fn reply_view(buffer: Option<&[u8]>) -> Option<Seq<u8>> {
    match buffer {
        Some(b) => Some(b@),
        None => None,
    }
}

/// A command that can be encoded, sent to the probe, and whose reply can be decoded.
pub trait Command {
    type Response;

    /// The command this is.
    spec fn spec_command_id(&self) -> CommandId;

    /// The bytes that encode the request.
    spec fn spec_request(&self) -> Seq<u8>;

    /// How many bytes of reply the command queues in the probe, and whether
    /// everything queued so far is to be read back now.
    spec fn spec_read_length(&self) -> (usize, bool);

    /// What a reply means; `None` stands for "nothing was read".
    spec fn spec_response(&self, reply: Option<Seq<u8>>) -> Result<Self::Response, SendError>;

    /// The command id.
    fn command_id(&self) -> (id: CommandId)
        ensures
            id == self.spec_command_id(),
    ;

    /// Convert the request to bytes, which can be sent to the probe.
    /// Returns the amount of bytes written to the buffer.
    fn to_bytes(&self, buffer: &mut [u8]) -> (r: Result<usize, SendError>)
        requires
            self.spec_request().len() <= old(buffer)@.len(),
        ensures
            r matches Ok(n) && n == self.spec_request().len(),
            final(buffer)@.len() == old(buffer)@.len(),
            final(buffer)@.take(self.spec_request().len() as int) == self.spec_request(),
            final(buffer)@.skip(self.spec_request().len() as int) == old(buffer)@.skip(
                self.spec_request().len() as int,
            ),
    ;

    /// Return the total length in bytes when this command is converted to a byte sequence with
    /// `to_bytes`.
    fn length(&self) -> (n: usize)
        ensures
            n == self.spec_request().len(),
    ;

    /// Return a tuple which tells how many bytes of data this command queues in the probe memory,
    /// and whether the queued data should all be read out.
    fn read_length(&self) -> (r: (usize, bool))
        ensures
            r == self.spec_read_length(),
    ;

    /// Parse the response bytes into the intended response type
    fn parse_response(&self, buffer: Option<&[u8]>) -> (r: Result<Self::Response, SendError>)
        ensures
            r == self.spec_response(reply_view(buffer)),
    ;
}

/// The header word of a command: its id in bits 15..=10, and bit 0 as given.
pub open spec fn header_word(id: CommandId, bit0: bool) -> u16 {
    set_bits(set_bits(0, 15, 10, id.spec_code()), 0, 0, if bit0 { 1 } else { 0 })
}

/// Builds the header word of a command.
pub fn make_header(id: CommandId, bit0: bool) -> (r: u16)
    ensures
        r == header_word(id, bit0),
{
    let mut header = CommandHeader(0);
    header.set_command_id(id.code());
    header.set_mem_rw_is_read(bit0);
    header.0
}

/// Errors of the Loongson EJTAG probe.
#[derive(Debug)]
pub enum LoongsonEjtagError {
    /// Error handling Loongson EJTAG command
    Send { command_id: CommandId, source: SendError },
}

/// What a command exchange amounts to for the caller: a failure to send
/// the command is reported together with the command it concerns.
pub fn send_command_outcome<Cmd: Command>(
    command: &Cmd,
    outcome: Result<Cmd::Response, SendError>,
) -> (r: Result<Cmd::Response, LoongsonEjtagError>)
    ensures
        match outcome {
            Ok(v) => r == Ok::<Cmd::Response, LoongsonEjtagError>(v),
            Err(e) => r == Err::<Cmd::Response, LoongsonEjtagError>(
                LoongsonEjtagError::Send { command_id: command.spec_command_id(), source: e },
            ),
        },
{
    match outcome {
        Ok(v) => Ok(v),
        Err(e) => Err(LoongsonEjtagError::Send { command_id: command.command_id(), source: e }),
    }
}

/// The abstract state of one command exchange with the probe.
pub struct TransferModel {
    /// The bytes of the request.
    pub request: Seq<u8>,
    /// How many request bytes the probe has accepted so far.
    pub written: nat,
    /// How many reply bytes are to be read back (0: none).
    pub read_len: nat,
    /// The reply buffer.
    pub response: Seq<u8>,
    /// How many reply bytes have been received so far.
    pub bytes_read: nat,
}

/// What the caller is to do next in an exchange.
#[derive(Clone, Copy, Debug, PartialEq, Eq, Structural)]
pub enum TransferStep {
    /// Hand the unwritten part of the request to the probe.
    Write,
    /// Read reply bytes from the probe.
    Read,
    /// Decode the reply.
    Finish,
}

impl TransferModel {
    /// A new exchange of `request`, after which `read_len` bytes are to be
    /// read back into a zeroed reply buffer.
    pub open spec fn start(request: Seq<u8>, read_len: nat) -> TransferModel {
        TransferModel {
            request,
            written: 0,
            read_len,
            response: Seq::new(read_len, |i: int| 0u8),
            bytes_read: 0,
        }
    }

    /// The reply buffer has the size of the reply, and no more than that
    /// has been received.
    pub open spec fn wf(self) -> bool {
        &&& self.response.len() == self.read_len
        &&& self.bytes_read <= self.read_len
    }

    /// What comes next: write while request bytes are left, then read until
    /// `read_len` bytes have come, then decode.
    pub open spec fn next_step(self) -> TransferStep {
        if self.written < self.request.len() {
            TransferStep::Write
        } else if self.read_len != 0 && self.bytes_read < self.read_len {
            TransferStep::Read
        } else {
            TransferStep::Finish
        }
    }

    /// The probe accepted `n` more request bytes.
    pub open spec fn after_write(self, n: nat) -> TransferModel {
        TransferModel { written: self.written + n, ..self }
    }

    /// The probe sent `data`, which lands right after the reply bytes
    /// received so far.
    pub open spec fn after_read(self, data: Seq<u8>) -> TransferModel {
        TransferModel {
            response: self.response.take(self.bytes_read as int) + data + self.response.skip(
                (self.bytes_read + data.len()) as int,
            ),
            bytes_read: self.bytes_read + data.len(),
            ..self
        }
    }

    /// The exchange after the probe accepted `sizes[0]`, `sizes[1]`, ...
    /// request bytes in turn.
    pub open spec fn after_writes(self, sizes: Seq<nat>) -> TransferModel
        decreases sizes.len(),
    {
        if sizes.len() == 0 {
            self
        } else {
            self.after_writes(sizes.drop_last()).after_write(sizes.last())
        }
    }

    /// The bytes the probe received over the writes of `sizes`: each write
    /// hands over the unwritten part of the request, of which the probe
    /// takes the first `sizes[k]` bytes.
    pub open spec fn bytes_handed_over(self, sizes: Seq<nat>) -> Seq<u8>
        decreases sizes.len(),
    {
        if sizes.len() == 0 {
            Seq::empty()
        } else {
            let before = self.after_writes(sizes.drop_last());
            self.bytes_handed_over(sizes.drop_last()) + before.request.skip(
                before.written as int,
            ).take(sizes.last() as int)
        }
    }

    /// The exchange after the probe sent each of `chunks` in turn.
    pub open spec fn after_reads(self, chunks: Seq<Seq<u8>>) -> TransferModel
        decreases chunks.len(),
    {
        if chunks.len() == 0 {
            self
        } else {
            self.after_reads(chunks.drop_last()).after_read(chunks.last())
        }
    }

    /// The reply to decode: the bytes received, or `None` when nothing was to be read.
    pub open spec fn reply(self) -> Option<Seq<u8>> {
        if self.read_len != 0 {
            Some(self.response.take(self.bytes_read as int))
        } else {
            None
        }
    }
}

/// One command exchange with the probe, driven by the caller: the caller
/// asks [`CommandTransfer::next_step`], performs the USB transfer it names,
/// reports what happened, and finally decodes the reply.
pub struct CommandTransfer {
    request: Vec<u8>,
    written: usize,
    read_len: usize,
    response: Vec<u8>,
    bytes_read: usize,
}

impl View for CommandTransfer {
    type V = TransferModel;

    closed spec fn view(&self) -> TransferModel {
        TransferModel {
            request: self.request@,
            written: self.written as nat,
            read_len: self.read_len as nat,
            response: self.response@,
            bytes_read: self.bytes_read as nat,
        }
    }
}

impl CommandTransfer {
    #[verifier::type_invariant]
    closed spec fn inv(self) -> bool {
        &&& self.response@.len() == self.read_len
        &&& self.bytes_read <= self.read_len
    }

    /// Encodes `command` and accounts for the reply bytes it queues in the
    /// probe. Nothing is sent yet.
    pub fn start<Cmd: Command>(device: &mut LoongsonEjtagDevice, command: &Cmd) -> (r: Result<
        CommandTransfer,
        SendError,
    >)
        requires
            old(device).spec_queued() + command.spec_read_length().0 <= usize::MAX,
        ensures
            r matches Ok(t) && {
                let (read_len, held) = queue_step(
                    old(device).spec_queued() as nat,
                    command.spec_read_length().0 as nat,
                    command.spec_read_length().1,
                );
                &&& t@ == TransferModel::start(command.spec_request(), read_len)
                &&& t@.wf()
                &&& final(device).spec_queued() == held
                &&& final(device).spec_max_packet_size() == old(device).spec_max_packet_size()
            },
    {
        // Reserve some buffer
        let mut buffer = vec![0u8; command.length()];
        let res = command.to_bytes(buffer.as_mut_slice());
        match res {
            Err(e) => {
                return Err(e);
            },
            Ok(_) => {},
        }
        proof {
            assert(buffer@ =~= buffer@.take(command.spec_request().len() as int));
        }
        let (queue_len, read_immediately) = command.read_length();
        let read_len = device.queue_reply(queue_len, read_immediately);

        let request = buffer;
        let response = vec![0u8; read_len];
        proof {
            assert forall|i: int| 0 <= i < read_len implies response@[i] == 0u8 by {
                assert(cloned::<u8>(0u8, response@[i]));
            }
            assert(response@ =~= Seq::new(read_len as nat, |i: int| 0u8));
        }
        Ok(CommandTransfer { request, written: 0, read_len, response, bytes_read: 0 })
    }

    /// What the caller is to do next.
    pub fn next_step(&self) -> (s: TransferStep)
        ensures
            s == self@.next_step(),
    {
        if self.written < self.request.len() {
            TransferStep::Write
        } else if self.read_len != 0 && self.bytes_read < self.read_len {
            TransferStep::Read
        } else {
            TransferStep::Finish
        }
    }

    /// The part of the request the probe has not accepted yet.
    pub fn unwritten(&self) -> (s: &[u8])
        requires
            self@.written < self@.request.len(),
        ensures
            s@ == self@.request.skip(self@.written as int),
    {
        let s = slice_subrange(self.request.as_slice(), self.written, self.request.len());
        proof {
            assert(s@ =~= self@.request.skip(self@.written as int));
        }
        s
    }

    /// How many reply bytes are to be read back in all; a read may ask for
    /// up to this many.
    pub fn read_len(&self) -> (n: usize)
        ensures
            n == self@.read_len,
    {
        self.read_len
    }

    /// How many request bytes the probe has accepted so far.
    pub fn written(&self) -> (n: usize)
        ensures
            n == self@.written,
    {
        self.written
    }

    /// How many reply bytes have been received so far.
    pub fn bytes_read(&self) -> (n: usize)
        ensures
            n == self@.bytes_read,
    {
        self.bytes_read
    }

    /// Records that the probe accepted `n` more request bytes.
    pub fn record_written(&mut self, n: usize)
        requires
            old(self)@.written + n <= usize::MAX,
        ensures
            final(self)@ == old(self)@.after_write(n as nat),
    {
        proof {
            use_type_invariant(&*self);
        }
        self.written = self.written + n;
    }

    /// Records that the probe sent `data`, which is appended to the reply
    /// bytes received so far. The probe cannot send more than is left.
    pub fn record_read(&mut self, data: &[u8])
        requires
            old(self)@.bytes_read + data@.len() <= old(self)@.read_len,
        ensures
            final(self)@ == old(self)@.after_read(data@),
    {
        proof {
            use_type_invariant(&*self);
        }
        let n = data.len();
        let start = self.bytes_read;
        let mut i: usize = 0;
        while i < n
            invariant
                n == data@.len(),
                start == old(self).bytes_read,
                start + n <= self.read_len,
                self.read_len == old(self).read_len,
                self.response@.len() == self.read_len,
                old(self).response@.len() == self.read_len,
                i <= n,
                self.response@ =~= old(self).response@.take(start as int) + data@.take(i as int)
                    + old(self).response@.skip(start + i),
                self.request == old(self).request,
                self.written == old(self).written,
                self.bytes_read == old(self).bytes_read,
            decreases n - i,
        {
            let ghost before = self.response@;
            self.response[start + i] = data[i];
            proof {
                assert(self.response@ == before.update(start + i, data@[i as int]));
                assert(self.response@ =~= old(self).response@.take(start as int) + data@.take(i + 1)
                    + old(self).response@.skip(start + i + 1));
            }
            i = i + 1;
        }
        self.bytes_read = self.bytes_read + n;
        proof {
            assert(data@.take(n as int) =~= data@);
        }
    }

    /// Decodes the reply with `command`.
    pub fn finish<Cmd: Command>(&self, command: &Cmd) -> (r: Result<Cmd::Response, SendError>)
        ensures
            r == command.spec_response(self@.reply()),
    {
        proof {
            use_type_invariant(self);
        }
        if self.read_len != 0 {
            let reply = slice_subrange(self.response.as_slice(), 0, self.bytes_read);
            proof {
                assert(reply@ =~= self@.response.take(self@.bytes_read as int));
            }
            command.parse_response(Some(reply))
        } else {
            command.parse_response(None)
        }
    }
}

/// The header word of a command carries its id code in bits 15..=10 and the
/// given flag in bit 0, and nothing else.
pub proof fn law_header_fields(id: CommandId, bit0: bool)
    ensures
        get_bits(header_word(id, bit0), 15, 10) == id.spec_code(),
        get_bits(header_word(id, bit0), 0, 0) == (if bit0 {
            1u16
        } else {
            0u16
        }),
        get_bits(header_word(id, bit0), 9, 1) == 0,
{
    let code = id.spec_code();
    let b: u16 = if bit0 {
        1
    } else {
        0
    };
    assert(code < 64);
    assert(get_bits(set_bits(set_bits(0, 15, 10, code), 0, 0, b), 15, 10) == code && get_bits(
        set_bits(set_bits(0, 15, 10, code), 0, 0, b),
        0,
        0,
    ) == b && get_bits(set_bits(set_bits(0, 15, 10, code), 0, 0, b), 9, 1) == 0) by (bit_vector)
        requires
            code < 64,
            b < 2,
    ;
}

/// How much of an exchange is left: request bytes not yet accepted plus
/// reply bytes not yet received.
pub open spec fn transfer_remaining(m: TransferModel) -> nat {
    (if m.written < m.request.len() {
        (m.request.len() - m.written) as nat
    } else {
        0nat
    }) + (if m.bytes_read < m.read_len {
        (m.read_len - m.bytes_read) as nat
    } else {
        0nat
    })
}

/// An exchange ends once every USB transfer moves at least one byte: each
/// such write or read brings it closer to `Finish`, and `Finish` comes only
/// when the whole request is accepted and the whole reply (if any) received.
pub proof fn law_exchange_progress(m: TransferModel, n: nat, data: Seq<u8>)
    ensures
        m.next_step() == TransferStep::Write && n > 0 ==> transfer_remaining(m.after_write(n))
            < transfer_remaining(m),
        m.next_step() == TransferStep::Read && data.len() > 0 ==> transfer_remaining(
            m.after_read(data),
        ) < transfer_remaining(m),
        m.next_step() == TransferStep::Finish ==> m.written >= m.request.len() && (m.read_len == 0
            || m.bytes_read >= m.read_len),
{
}

/// An exchange in which the probe accepts the whole request in one write and
/// sends the whole reply in one read decodes exactly the bytes it sent; one
/// that reads nothing back decodes `None`.
pub proof fn law_whole_reply_is_decoded(request: Seq<u8>, read_len: nat, data: Seq<u8>)
    requires
        data.len() == read_len,
    ensures
        TransferModel::start(request, read_len).wf(),
        request.len() > 0 ==> TransferModel::start(request, read_len).next_step()
            == TransferStep::Write,
        ({
            let sent = TransferModel::start(request, read_len).after_write(request.len());
            &&& sent.next_step() == (if read_len != 0 {
                TransferStep::Read
            } else {
                TransferStep::Finish
            })
            &&& read_len != 0 ==> sent.after_read(data).next_step() == TransferStep::Finish
            &&& read_len != 0 ==> sent.after_read(data).reply() == Some(data)
            &&& read_len == 0 ==> sent.reply() == None::<Seq<u8>>
        }),
{
    let m = TransferModel::start(request, read_len);
    let sent = m.after_write(request.len());
    if read_len != 0 {
        let done = sent.after_read(data);
        assert(done.response.take(read_len as int) =~= data);
    }
}

/// The chunks of a reply, one after the other.
pub open spec fn concat_chunks(chunks: Seq<Seq<u8>>) -> Seq<u8>
    decreases chunks.len(),
{
    if chunks.len() == 0 {
        Seq::empty()
    } else {
        concat_chunks(chunks.drop_last()) + chunks.last()
    }
}

/// Reading chunks one after another appends them to the reply received so far.
pub proof fn lemma_reads_append(m: TransferModel, chunks: Seq<Seq<u8>>)
    requires
        m.wf(),
        m.bytes_read + concat_chunks(chunks).len() <= m.read_len,
    ensures
        m.after_reads(chunks).wf(),
        m.after_reads(chunks).bytes_read == m.bytes_read + concat_chunks(chunks).len(),
        m.after_reads(chunks).response.take(m.after_reads(chunks).bytes_read as int) == m.response.take(
            m.bytes_read as int,
        ) + concat_chunks(chunks),
        m.after_reads(chunks).request == m.request,
        m.after_reads(chunks).written == m.written,
        m.after_reads(chunks).read_len == m.read_len,
    decreases chunks.len(),
{
    if chunks.len() > 0 {
        let init = chunks.drop_last();
        let last = chunks.last();
        assert(concat_chunks(chunks).len() == concat_chunks(init).len() + last.len());
        lemma_reads_append(m, init);
        let p = m.after_reads(init);
        let q = p.after_read(last);
        assert(q.response.take(q.bytes_read as int) =~= p.response.take(p.bytes_read as int) + last);
        assert(m.response.take(m.bytes_read as int) + concat_chunks(init) + last =~= m.response.take(
            m.bytes_read as int,
        ) + concat_chunks(chunks));
    }
}

/// Each chunk of a reply that is not longer than the whole fits in what is
/// left to read when it arrives.
proof fn lemma_chunk_fits(m: TransferModel, chunks: Seq<Seq<u8>>, k: int)
    requires
        m.wf(),
        m.bytes_read + concat_chunks(chunks).len() <= m.read_len,
        0 <= k < chunks.len(),
    ensures
        m.after_reads(chunks.take(k)).bytes_read + chunks[k].len() <= m.read_len,
        m.after_reads(chunks.take(k)).bytes_read == m.bytes_read + concat_chunks(chunks.take(k)).len(),
    decreases chunks.len(),
{
    let init = chunks.drop_last();
    if k < chunks.len() - 1 {
        assert(concat_chunks(chunks).len() == concat_chunks(init).len() + chunks.last().len());
        lemma_chunk_fits(m, init, k);
        assert(init.take(k) =~= chunks.take(k));
    } else {
        assert(chunks.take(k) =~= init);
        lemma_reads_append(m, init);
    }
}

/// However the probe splits its reply into reads, the exchange decodes the
/// reply bytes in the order they came: after the whole request is accepted
/// and chunks totalling the reply length are read, each chunk fits in what
/// is left when it arrives, the exchange is finished, and the reply is the
/// chunks one after the other.
pub proof fn law_chunked_reply_is_decoded(request: Seq<u8>, read_len: nat, chunks: Seq<Seq<u8>>)
    requires
        concat_chunks(chunks).len() == read_len,
    ensures
        ({
            let sent = TransferModel::start(request, read_len).after_write(request.len());
            let done = sent.after_reads(chunks);
            &&& forall|k: int|
                0 <= k < chunks.len() ==> sent.after_reads(chunks.take(k)).bytes_read + (
                #[trigger] chunks[k]).len() <= read_len
            &&& done.wf()
            &&& done.bytes_read == read_len
            &&& done.next_step() == TransferStep::Finish
            &&& read_len != 0 ==> done.reply() == Some(concat_chunks(chunks))
            &&& read_len == 0 ==> done.reply() == None::<Seq<u8>>
        }),
{
    let sent = TransferModel::start(request, read_len).after_write(request.len());
    assert(sent.wf());
    lemma_reads_append(sent, chunks);
    assert forall|k: int|
        0 <= k < chunks.len() implies sent.after_reads(chunks.take(k)).bytes_read + (
        #[trigger] chunks[k]).len() <= read_len by {
        lemma_chunk_fits(sent, chunks, k);
    }
    let done = sent.after_reads(chunks);
    assert(sent.response.take(0) =~= Seq::<u8>::empty());
    assert(done.response.take(done.bytes_read as int) =~= concat_chunks(chunks));
}

/// The queue of reply bytes held by the probe after a command exchange:
/// [`CommandTransfer::start`] leaves it as `queue_step` gives (empty after a
/// command that reads back immediately, grown by the command's own bytes
/// otherwise), and no later step of the exchange touches the device, so
/// this holds whether the USB transfers then succeed or fail.
pub proof fn law_queue_after_command(queued: nat, queue_len: nat, read_immediately: bool)
    ensures
        queue_step(queued, queue_len, read_immediately).1 == (if read_immediately {
            0
        } else {
            queued + queue_len
        }),
        queue_step(queued, queue_len, read_immediately).0 == (if read_immediately {
            queued + queue_len
        } else {
            0
        }),
{
}

/// The total of `sizes`.
pub open spec fn total(sizes: Seq<nat>) -> nat
    decreases sizes.len(),
{
    if sizes.len() == 0 {
        0
    } else {
        total(sizes.drop_last()) + sizes.last()
    }
}

/// Writes hand over the request bytes that follow those already written.
proof fn lemma_writes_hand_over(m: TransferModel, sizes: Seq<nat>)
    requires
        m.written + total(sizes) <= m.request.len(),
    ensures
        m.after_writes(sizes).written == m.written + total(sizes),
        m.after_writes(sizes).request == m.request,
        m.bytes_handed_over(sizes) == m.request.subrange(
            m.written as int,
            (m.written + total(sizes)) as int,
        ),
    decreases sizes.len(),
{
    if sizes.len() > 0 {
        let init = sizes.drop_last();
        lemma_writes_hand_over(m, init);
        let before = m.after_writes(init);
        assert(m.request.subrange(m.written as int, (m.written + total(init)) as int)
            + before.request.skip(before.written as int).take(sizes.last() as int)
            =~= m.request.subrange(m.written as int, (m.written + total(sizes)) as int));
    }
}

/// The Write steps of a new exchange hand the probe exactly the request,
/// from its first byte: however the probe splits what it accepts, once it
/// has accepted as many bytes as the request holds, the bytes it received
/// are the request and no Write step is left.
pub proof fn law_writes_hand_over_request(request: Seq<u8>, read_len: nat, sizes: Seq<nat>)
    requires
        total(sizes) == request.len(),
    ensures
        TransferModel::start(request, read_len).bytes_handed_over(sizes) == request,
        TransferModel::start(request, read_len).after_writes(sizes).next_step()
            != TransferStep::Write,
{
    let m = TransferModel::start(request, read_len);
    lemma_writes_hand_over(m, sizes);
    assert(request.subrange(0, request.len() as int) =~= request);
}

} // verus!
