use crate::commands::{
    header_word, law_whole_reply_is_decoded, le_u16, le_u32, lemma_u32_le_roundtrip, make_header,
    read_le_u32, set_bits, u32_from_le, write_le_u16, write_le_u32, Command, CommandId,
    TransferModel, TransferStep,
};
use crate::queue_step;
use crate::SendError;
use vstd::prelude::*;

verus! {

/// JTAG port clock division register.
pub const LSEJTAG_ADDR_REG_CLOCK_DIV: u32 = 0x81000070;

/// Reads (when `write_data` is `None`) or writes a 32-bit word of the probe's own memory.
pub struct ProbeMemoryRWCommand {
    pub address: u32,
    pub write_data: Option<u32>,
}

impl Command for ProbeMemoryRWCommand {
    type Response = Option<u32>;

    open spec fn spec_command_id(&self) -> CommandId {
        CommandId::ProbeMemoryRW
    }

    open spec fn spec_request(&self) -> Seq<u8> {
        let head = le_u16(header_word(CommandId::ProbeMemoryRW, self.write_data is None)) + le_u32(
            self.address,
        );
        match self.write_data {
            Some(data) => head + le_u32(data),
            None => head,
        }
    }

    open spec fn spec_read_length(&self) -> (usize, bool) {
        if self.write_data is Some {
            (0, false)
        } else {
            (4, true)
        }
    }

    open spec fn spec_response(&self, reply: Option<Seq<u8>>) -> Result<Option<u32>, SendError> {
        if self.write_data is Some {
            // A write sends nothing back.
            match reply {
                Some(_) => Err(SendError::UnexpectedResponse),
                None => Ok(None),
            }
        } else {
            // A read sends back exactly the 4 bytes of the word.
            match reply {
                Some(b) => if b.len() == 4 {
                    Ok(Some(u32_from_le(b)))
                } else {
                    Err(SendError::UnexpectedResponse)
                },
                None => Err(SendError::UnexpectedResponse),
            }
        }
    }

    fn command_id(&self) -> (id: CommandId) {
        CommandId::ProbeMemoryRW
    }

    fn to_bytes(&self, buffer: &mut [u8]) -> (r: Result<usize, SendError>) {
        let header = make_header(CommandId::ProbeMemoryRW, self.write_data.is_none());
        write_le_u16(buffer, 0, header);
        write_le_u32(buffer, 2, self.address);
        if let Some(data) = self.write_data {
            write_le_u32(buffer, 6, data);
        }
        proof {
            let n = self.spec_request().len() as int;
            assert(buffer@.take(n) =~= self.spec_request());
            assert(buffer@.skip(n) =~= old(buffer)@.skip(n));
        }
        Ok(self.length())
    }

    fn length(&self) -> (n: usize) {
        if self.write_data.is_some() {
            10
        } else {
            6
        }
    }

    fn read_length(&self) -> (r: (usize, bool)) {
        if self.write_data.is_some() {
            (0, false)
        } else {
            (4, true)
        }
    }

    fn parse_response(&self, buffer: Option<&[u8]>) -> (r: Result<Option<u32>, SendError>) {
        if self.write_data.is_some() {
            // Write command: should not receive any return data
            if buffer.is_some() {
                Err(SendError::UnexpectedResponse)
            } else {
                Ok(None)
            }
        } else {
            // Read command: must receive 4 bytes
            if let Some(buf) = buffer {
                if buf.len() == 4 {
                    Ok(Some(read_le_u32(buf)))
                } else {
                    Err(SendError::UnexpectedResponse)
                }
            } else {
                Err(SendError::UnexpectedResponse)
            }
        }
    }
}

/// A read of `address` sends the six bytes 0x01 0x04 and the little-endian
/// address, and gives back the little-endian value of the four reply bytes;
/// a write sends 0x00 0x04, the address and the data, and expects no reply.
pub proof fn law_memory_rw_exchange(address: u32, data: u32, value: u32)
    ensures
        (ProbeMemoryRWCommand { address, write_data: None }).spec_request() == seq![0x01u8, 0x04u8]
            + le_u32(address),
        (ProbeMemoryRWCommand { address, write_data: Some(data) }).spec_request() == seq![
            0x00u8,
            0x04u8,
        ] + le_u32(address) + le_u32(data),
        (ProbeMemoryRWCommand { address, write_data: None }).spec_response(Some(le_u32(value)))
            == Ok::<Option<u32>, SendError>(Some(value)),
        (ProbeMemoryRWCommand { address, write_data: Some(data) }).spec_response(None) == Ok::<
            Option<u32>,
            SendError,
        >(None),
{
    lemma_u32_le_roundtrip(value);
    let r = header_word(CommandId::ProbeMemoryRW, true);
    let w = header_word(CommandId::ProbeMemoryRW, false);
    assert(r == 0x0401u16 && w == 0x0400u16) by (bit_vector)
        requires
            r == set_bits(set_bits(0, 15, 10, 0x01), 0, 0, 1),
            w == set_bits(set_bits(0, 15, 10, 0x01), 0, 0, 0),
    ;
    assert(((r & 0xff) as u8) == 1u8 && ((r >> 8) as u8) == 4u8 && ((w & 0xff) as u8) == 0u8 && ((w
        >> 8) as u8) == 4u8) by (bit_vector)
        requires
            r == 0x0401u16,
            w == 0x0400u16,
    ;
    assert(le_u16(r) =~= seq![0x01u8, 0x04u8]);
    assert(le_u16(w) =~= seq![0x00u8, 0x04u8]);
}

/// On a probe holding no queued reply, a memory read exchange in which the
/// probe accepts the request at once and sends back the four little-endian
/// bytes of `value` yields `value`; a write exchange yields `None` without
/// reading anything.
pub proof fn law_memory_rw_roundtrip(address: u32, data: u32, value: u32)
    ensures
        ({
            let cmd = ProbeMemoryRWCommand { address, write_data: None };
            let (read_len, held) = queue_step(0, cmd.spec_read_length().0 as nat, cmd.spec_read_length().1);
            let done = TransferModel::start(cmd.spec_request(), read_len).after_write(
                cmd.spec_request().len(),
            ).after_read(le_u32(value));
            &&& held == 0
            &&& done.next_step() == TransferStep::Finish
            &&& cmd.spec_response(done.reply()) == Ok::<Option<u32>, SendError>(Some(value))
        }),
        ({
            let cmd = ProbeMemoryRWCommand { address, write_data: Some(data) };
            let (read_len, held) = queue_step(0, cmd.spec_read_length().0 as nat, cmd.spec_read_length().1);
            let done = TransferModel::start(cmd.spec_request(), read_len).after_write(
                cmd.spec_request().len(),
            );
            &&& held == 0
            &&& done.next_step() == TransferStep::Finish
            &&& cmd.spec_response(done.reply()) == Ok::<Option<u32>, SendError>(None)
        }),
{
    law_memory_rw_exchange(address, data, value);
    lemma_u32_le_roundtrip(value);
    law_whole_reply_is_decoded(
        (ProbeMemoryRWCommand { address, write_data: None }).spec_request(),
        4,
        le_u32(value),
    );
    law_whole_reply_is_decoded(
        (ProbeMemoryRWCommand { address, write_data: Some(data) }).spec_request(),
        0,
        Seq::empty(),
    );
}

} // verus!
