use bitfield::{BitRange, BitRangeMut};
use loongsonejtag::commands::get_firmware_version::GetFirmwareVersionCommand;
use loongsonejtag::commands::probe_memory_rw::{ProbeMemoryRWCommand, LSEJTAG_ADDR_REG_CLOCK_DIV};
use loongsonejtag::commands::{
    send_command_outcome, Command, CommandHeader, CommandId, CommandTransfer, LoongsonEjtagError,
    TransferStep,
};
use loongsonejtag::{LoongsonEjtagDevice, SendError};

#[test]
fn command_codes() {
    assert_eq!(CommandId::ProbeMemoryRW.code(), 0x01);
    assert_eq!(CommandId::IoManipulation.code(), 0x03);
    assert_eq!(CommandId::IrRW.code(), 0x04);
    assert_eq!(CommandId::DrRW.code(), 0x05);
    assert_eq!(CommandId::LoopbackTest.code(), 0x08);
    assert_eq!(CommandId::FastWriteWithFastdata.code(), 0x0c);
    assert_eq!(CommandId::FastWrite.code(), 0x0d);
    assert_eq!(CommandId::FastReadWithFastdata.code(), 0x0e);
    assert_eq!(CommandId::FastRead.code(), 0x0f);
    assert_eq!(CommandId::GetFirmwareVersion.code(), 0x1f);
}

#[test]
fn header_fields_agree_with_bitfield_crate() {
    let words: [u16; 6] = [0, 0xffff, 0x1234, 0x8001, 0x7c00, 0x5aa5];
    let values: [u16; 5] = [0, 1, 0x1f, 0x3f, 0xffff];
    let ranges: [(u16, u16); 6] = [(6, 0), (0, 0), (7, 7), (8, 8), (9, 9), (15, 10)];
    for &w in words.iter() {
        for &(msb, lsb) in ranges.iter() {
            let h = CommandHeader(w);
            let expected: u16 = BitRange::<u16>::bit_range(&w, msb as usize, lsb as usize);
            assert_eq!(h.bit_range(msb, lsb), expected);
            for &v in values.iter() {
                let mut h = CommandHeader(w);
                h.set_bit_range(msb, lsb, v);
                let mut expected = w;
                BitRangeMut::<u16>::set_bit_range(&mut expected, msb as usize, lsb as usize, v);
                assert_eq!(h.0, expected);
            }
        }
    }
}

#[test]
fn header_accessors() {
    let mut h = CommandHeader(0);
    h.set_command_id(CommandId::GetFirmwareVersion.code());
    assert_eq!(h.0, 0x7c00);
    assert_eq!(h.command_id(), 0x1f);
    h.set_mem_rw_is_read(true);
    assert_eq!(h.0, 0x7c01);
    assert!(h.mem_rw_is_read());
    assert_eq!(h.core_count(), 1);
    h.set_core_count(0x7f);
    assert_eq!(h.0, 0x7c7f);
    h.set_is_64_bit(true);
    assert!(h.is_64_bit());
    h.set_immediate_read(true);
    assert!(h.immediate_read());
    h.set_read_tdo(true);
    assert!(h.read_tdo());
    assert_eq!(h.0, 0x7fff);
    h.set_read_tdo(false);
    assert!(!h.read_tdo());
    assert_eq!(h.0, 0x7dff);
    // Writing a value wider than the field keeps only its low bits.
    h.set_command_id(0xffc1);
    assert_eq!(h.command_id(), 0x01);
    assert_eq!(h.0, 0x05ff);
}

#[test]
fn firmware_version_request() {
    let cmd = GetFirmwareVersionCommand {};
    let mut buffer = [0xeeu8; 3];
    assert_eq!(cmd.length(), 2);
    assert!(matches!(cmd.to_bytes(&mut buffer), Ok(2)));
    assert_eq!(buffer, [0x00, 0x7c, 0xee]);
    assert_eq!(cmd.read_length(), (4, true));
    assert!(matches!(cmd.command_id(), CommandId::GetFirmwareVersion));
}

#[test]
fn firmware_version_response() {
    let cmd = GetFirmwareVersionCommand {};
    assert_eq!(cmd.parse_response(Some(&[0x13, 0x02, 0x25, 0x20])).unwrap(), 0x20250213);
    assert!(matches!(cmd.parse_response(Some(&[0x13, 0x02, 0x25])), Err(SendError::UnexpectedResponse)));
    assert!(matches!(cmd.parse_response(Some(&[1, 2, 3, 4, 5])), Err(SendError::UnexpectedResponse)));
    assert!(matches!(cmd.parse_response(None), Err(SendError::UnexpectedResponse)));
}

#[test]
fn memory_read_request() {
    let cmd = ProbeMemoryRWCommand { address: LSEJTAG_ADDR_REG_CLOCK_DIV, write_data: None };
    let mut buffer = [0u8; 6];
    assert_eq!(cmd.length(), 6);
    assert!(matches!(cmd.to_bytes(&mut buffer), Ok(6)));
    assert_eq!(buffer, [0x01, 0x04, 0x70, 0x00, 0x00, 0x81]);
    assert_eq!(cmd.read_length(), (4, true));
}

#[test]
fn memory_write_request() {
    let cmd = ProbeMemoryRWCommand { address: 0x12345678, write_data: Some(0xdeadbeef) };
    let mut buffer = [0u8; 12];
    assert_eq!(cmd.length(), 10);
    assert!(matches!(cmd.to_bytes(&mut buffer), Ok(10)));
    assert_eq!(buffer, [0x00, 0x04, 0x78, 0x56, 0x34, 0x12, 0xef, 0xbe, 0xad, 0xde, 0, 0]);
    assert_eq!(cmd.read_length(), (0, false));
    assert!(matches!(cmd.command_id(), CommandId::ProbeMemoryRW));
}

#[test]
fn memory_rw_responses() {
    let read = ProbeMemoryRWCommand { address: 0, write_data: None };
    assert_eq!(read.parse_response(Some(&[8, 0, 0, 0])).unwrap(), Some(8));
    assert!(matches!(read.parse_response(Some(&[8, 0])), Err(SendError::UnexpectedResponse)));
    assert!(matches!(read.parse_response(None), Err(SendError::UnexpectedResponse)));

    let write = ProbeMemoryRWCommand { address: 0, write_data: Some(8) };
    assert_eq!(write.parse_response(None).unwrap(), None);
    assert!(matches!(write.parse_response(Some(&[8, 0, 0, 0])), Err(SendError::UnexpectedResponse)));
}

#[test]
fn firmware_version_exchange() {
    let mut device = LoongsonEjtagDevice::new(512);
    let cmd = GetFirmwareVersionCommand {};
    let mut transfer = CommandTransfer::start(&mut device, &cmd).unwrap();
    assert_eq!(device.queued_read_length(), 0);
    assert_eq!(transfer.next_step(), TransferStep::Write);
    assert_eq!(transfer.unwritten(), &[0x00, 0x7c]);
    transfer.record_written(1);
    assert_eq!(transfer.next_step(), TransferStep::Write);
    assert_eq!(transfer.unwritten(), &[0x7c]);
    transfer.record_written(1);
    assert_eq!(transfer.next_step(), TransferStep::Read);
    assert_eq!(transfer.read_len(), 4);
    transfer.record_read(&[0x13, 0x02, 0x25, 0x20]);
    assert_eq!(transfer.next_step(), TransferStep::Finish);
    assert_eq!(transfer.finish(&cmd).unwrap(), 0x20250213);
}

#[test]
fn memory_write_exchange_reads_nothing() {
    let mut device = LoongsonEjtagDevice::new(64);
    let cmd = ProbeMemoryRWCommand { address: 4, write_data: Some(5) };
    let mut transfer = CommandTransfer::start(&mut device, &cmd).unwrap();
    assert_eq!(transfer.read_len(), 0);
    transfer.record_written(10);
    assert_eq!(transfer.next_step(), TransferStep::Finish);
    assert_eq!(transfer.finish(&cmd).unwrap(), None);
    assert_eq!(device.queued_read_length(), 0);
    assert_eq!(device.max_packet_size(), 64);
}

#[test]
fn reply_read_in_chunks_is_decoded_in_order() {
    let mut device = LoongsonEjtagDevice::new(512);
    let cmd = ProbeMemoryRWCommand { address: 0x81000070, write_data: None };
    let mut transfer = CommandTransfer::start(&mut device, &cmd).unwrap();
    transfer.record_written(6);
    transfer.record_read(&[0xaa, 0xbb]);
    assert_eq!(transfer.bytes_read(), 2);
    assert_eq!(transfer.next_step(), TransferStep::Read);
    transfer.record_read(&[]);
    assert_eq!(transfer.next_step(), TransferStep::Read);
    transfer.record_read(&[0xcc]);
    transfer.record_read(&[0xdd]);
    assert_eq!(transfer.next_step(), TransferStep::Finish);
    assert_eq!(transfer.finish(&cmd).unwrap(), Some(0xddcc_bbaa));
}

#[test]
fn queued_reply_bytes_are_read_with_the_next_immediate_command() {
    let mut device = LoongsonEjtagDevice::new(512);
    assert_eq!(device.queue_reply(3, false), 0);
    assert_eq!(device.queue_reply(5, false), 0);
    assert_eq!(device.queued_read_length(), 8);
    let cmd = GetFirmwareVersionCommand {};
    let mut transfer = CommandTransfer::start(&mut device, &cmd).unwrap();
    assert_eq!(transfer.read_len(), 12);
    assert_eq!(device.queued_read_length(), 0);
    transfer.record_written(2);
    transfer.record_read(&[0; 12]);
    // Twelve bytes are not a firmware version.
    assert!(matches!(transfer.finish(&cmd), Err(SendError::UnexpectedResponse)));
}

#[test]
fn send_errors_name_the_command() {
    let cmd = GetFirmwareVersionCommand {};
    assert_eq!(send_command_outcome(&cmd, Ok(7)).unwrap(), 7);
    match send_command_outcome(&cmd, Err(SendError::Timeout)) {
        Err(LoongsonEjtagError::Send { command_id, source }) => {
            assert!(matches!(command_id, CommandId::GetFirmwareVersion));
            assert!(matches!(source, SendError::Timeout));
        }
        _ => panic!("expected an error"),
    }
}
