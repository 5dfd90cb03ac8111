use crate::commands::{
    header_word, law_whole_reply_is_decoded, le_u16, le_u32, lemma_u32_le_roundtrip, make_header,
    read_le_u32, set_bits, u32_from_le, write_le_u16, Command, CommandId, TransferModel,
    TransferStep,
};
use crate::queue_step;
use crate::SendError;
use vstd::prelude::*;

verus! {

/// Asks the probe for its firmware version code.
pub struct GetFirmwareVersionCommand {}

impl Command for GetFirmwareVersionCommand {
    type Response = u32;

    open spec fn spec_command_id(&self) -> CommandId {
        CommandId::GetFirmwareVersion
    }

    open spec fn spec_request(&self) -> Seq<u8> {
        le_u16(header_word(CommandId::GetFirmwareVersion, false))
    }

    open spec fn spec_read_length(&self) -> (usize, bool) {
        (4, true)
    }

    open spec fn spec_response(&self, reply: Option<Seq<u8>>) -> Result<u32, SendError> {
        match reply {
            Some(b) => if b.len() == 4 {
                Ok(u32_from_le(b))
            } else {
                Err(SendError::UnexpectedResponse)
            },
            None => Err(SendError::UnexpectedResponse),
        }
    }

    fn command_id(&self) -> (id: CommandId) {
        CommandId::GetFirmwareVersion
    }

    fn to_bytes(&self, buffer: &mut [u8]) -> (r: Result<usize, SendError>) {
        let header = make_header(CommandId::GetFirmwareVersion, false);
        write_le_u16(buffer, 0, header);
        proof {
            assert(buffer@.take(2) =~= self.spec_request());
            assert(buffer@.skip(2) =~= old(buffer)@.skip(2));
        }
        Ok(self.length())
    }

    fn length(&self) -> (n: usize) {
        2
    }

    fn read_length(&self) -> (r: (usize, bool)) {
        (4, true)
    }

    fn parse_response(&self, buffer: Option<&[u8]>) -> (r: Result<u32, SendError>) {
        if let Some(buffer) = buffer {
            if buffer.len() != 4 {
                return Err(SendError::UnexpectedResponse);
            }
            return Ok(read_le_u32(buffer));
        }
        Err(SendError::UnexpectedResponse)
    }
}

/// The request is the two bytes 0x00 0x7c, and the firmware version read back
/// is the little-endian value of the four reply bytes; any other reply is an
/// unexpected response.
pub proof fn law_firmware_version_exchange(version: u32, reply: Option<Seq<u8>>)
    ensures
        (GetFirmwareVersionCommand {}).spec_request() == seq![0x00u8, 0x7cu8],
        (GetFirmwareVersionCommand {}).spec_response(Some(le_u32(version))) == Ok::<
            u32,
            SendError,
        >(version),
        !(reply matches Some(b) && b.len() == 4) ==> (GetFirmwareVersionCommand {}).spec_response(
            reply,
        ) == Err::<u32, SendError>(SendError::UnexpectedResponse),
{
    lemma_u32_le_roundtrip(version);
    let w = header_word(CommandId::GetFirmwareVersion, false);
    assert(w == 0x7c00u16) by (bit_vector)
        requires
            w == set_bits(set_bits(0, 15, 10, 0x1f), 0, 0, 0),
    ;
    assert(((w & 0xff) as u8) == 0u8 && ((w >> 8) as u8) == 0x7cu8) by (bit_vector)
        requires
            w == 0x7c00u16,
    ;
    assert(GetFirmwareVersionCommand {}.spec_request() =~= seq![0x00u8, 0x7cu8]);
}

/// On a probe holding `queued` reply bytes, the firmware version exchange
/// reads back everything queued plus its own four bytes; when nothing was
/// queued and the probe sends the little-endian bytes of `version`, the
/// exchange yields `version`.
pub proof fn law_firmware_version_roundtrip(queued: nat, version: u32)
    ensures
        ({
            let cmd = GetFirmwareVersionCommand {};
            let (read_len, held) = queue_step(queued, cmd.spec_read_length().0 as nat, cmd.spec_read_length().1);
            &&& read_len == queued + 4
            &&& held == 0
        }),
        ({
            let cmd = GetFirmwareVersionCommand {};
            let done = TransferModel::start(cmd.spec_request(), 4).after_write(
                cmd.spec_request().len(),
            ).after_read(le_u32(version));
            &&& done.next_step() == TransferStep::Finish
            &&& cmd.spec_response(done.reply()) == Ok::<u32, SendError>(version)
        }),
{
    law_firmware_version_exchange(version, None);
    lemma_u32_le_roundtrip(version);
    law_whole_reply_is_decoded((GetFirmwareVersionCommand {}).spec_request(), 4, le_u32(version));
}

} // verus!
