//! Loongson EJTAG probe: command encoding, response decoding and the
//! host-side bookkeeping of a command exchange, each with its contract.
//!
//! USB transfers themselves are performed by the caller; this crate decides
//! what to send, how much to read back, and what the reply means.

pub mod commands;
pub mod tools;

use crate::commands::probe_memory_rw::{ProbeMemoryRWCommand, LSEJTAG_ADDR_REG_CLOCK_DIV};
use vstd::prelude::*;

verus! {

/// Declares `std::io::Error` so that it can be carried in [`SendError`].
#[verifier::external_type_specification]
#[verifier::external_body]
pub struct ExIoError(std::io::Error);

/// Whether `std::io::Error::kind` of `error` is `std::io::ErrorKind::TimedOut`.
pub uninterp spec fn io_error_timed_out(error: std::io::Error) -> bool;

/// Calls `std::io::Error::kind` and tells `TimedOut` apart from every other kind.
/// The contract claims that the answer depends on the error alone.
#[verifier::external_body]
fn is_timed_out(error: &std::io::Error) -> (r: bool)
    ensures
        r == io_error_timed_out(*error),
{
    match error.kind() {
        std::io::ErrorKind::TimedOut => true,
        _ => false,
    }
}

/// Errors occured when sending command to the probe
#[derive(Debug)]
pub enum SendError {
    /// Error in the USB access.
    UsbError(std::io::Error),
    /// Timeout in USB communication.
    Timeout,
    /// Unexpected response to command.
    UnexpectedResponse,
}

impl From<std::io::Error> for SendError {
    fn from(error: std::io::Error) -> (r: SendError) {
        if is_timed_out(&error) {
            SendError::Timeout
        } else {
            SendError::UsbError(error)
        }
    }
}

impl vstd::std_specs::convert::FromSpecImpl<std::io::Error> for SendError {
    open spec fn obeys_from_spec() -> bool {
        true
    }

    open spec fn from_spec(error: std::io::Error) -> SendError {
        if io_error_timed_out(error) {
            SendError::Timeout
        } else {
            SendError::UsbError(error)
        }
    }
}

/// The host-side state of an open Loongson EJTAG device: what the exchange
/// logic reads and updates. The USB interface handle itself is held by the
/// caller next to this value.
#[derive(Debug)]
pub struct LoongsonEjtagDevice {
    max_packet_size: usize,
    /// Loongson EJTAG allow IR/DR read values be queued and not sent back immediately until demanded
    /// In order to know how many bytes we should read, we need this counter
    queued_read_length: usize,
}

impl LoongsonEjtagDevice {
    /// The bulk transfer size in use.
    pub closed spec fn spec_max_packet_size(&self) -> usize {
        self.max_packet_size
    }

    /// How many reply bytes the probe holds that have not been read back yet.
    pub closed spec fn spec_queued(&self) -> usize {
        self.queued_read_length
    }

    /// A freshly opened device: nothing queued yet.
    pub fn new(max_packet_size: usize) -> (d: Self)
        ensures
            d.spec_max_packet_size() == max_packet_size,
            d.spec_queued() == 0,
    {
        LoongsonEjtagDevice { max_packet_size, queued_read_length: 0 }
    }

    /// The bulk transfer size in use.
    pub fn max_packet_size(&self) -> (r: usize)
        ensures
            r == self.spec_max_packet_size(),
    {
        self.max_packet_size
    }

    /// How many reply bytes the probe holds that have not been read back yet.
    pub fn queued_read_length(&self) -> (r: usize)
        ensures
            r == self.spec_queued(),
    {
        self.queued_read_length
    }

    /// Set the packet size to use for this device (Bulk transfer size)
    pub fn set_packet_size(&mut self, size: usize)
        ensures
            final(self).spec_max_packet_size() == size,
            final(self).spec_queued() == old(self).spec_queued(),
    {
        self.max_packet_size = size;
    }

    /// Records that a command queues `queue_len` more reply bytes in the probe.
    /// When `read_immediately`, everything queued is to be read back now: the
    /// count is returned and the queue is empty afterwards; otherwise nothing
    /// is to be read and 0 is returned.
    pub fn queue_reply(&mut self, queue_len: usize, read_immediately: bool) -> (read_len: usize)
        requires
            old(self).spec_queued() + queue_len <= usize::MAX,
        ensures
            (read_len as nat, final(self).spec_queued() as nat) == queue_step(
                old(self).spec_queued() as nat,
                queue_len as nat,
                read_immediately,
            ),
            final(self).spec_max_packet_size() == old(self).spec_max_packet_size(),
    {
        self.queued_read_length = self.queued_read_length + queue_len;
        let mut read_len = 0usize;
        if read_immediately {
            read_len = read_len + self.queued_read_length;
            self.queued_read_length = 0;
        }
        read_len
    }
}

/// One step of the reply queue: from `queued` bytes held by the probe, a
/// command adds `queue_len` and, when `read_immediately`, everything is read
/// back. Gives (bytes to read now, bytes still held).
pub open spec fn queue_step(queued: nat, queue_len: nat, read_immediately: bool) -> (nat, nat) {
    if read_immediately {
        (queued + queue_len, 0)
    } else {
        (0, queued + queue_len)
    }
}

/// Runs the reply queue over a series of commands, each given as
/// (`queue_len`, `read_immediately`). Gives (total bytes read back, bytes
/// still held at the end).
pub open spec fn queue_run(queued: nat, commands: Seq<(nat, bool)>) -> (nat, nat)
    decreases commands.len(),
{
    if commands.len() == 0 {
        (0, queued)
    } else {
        let (read, held) = queue_step(queued, commands[0].0, commands[0].1);
        let (rest_read, rest_held) = queue_run(held, commands.drop_first());
        (read + rest_read, rest_held)
    }
}

/// Total bytes the commands queue.
pub open spec fn queued_total(commands: Seq<(nat, bool)>) -> nat
    decreases commands.len(),
{
    if commands.len() == 0 {
        0
    } else {
        commands[0].0 + queued_total(commands.drop_first())
    }
}

/// No reply byte is lost or read twice: over any series of commands, the
/// bytes read back plus those still held equal those held at the start plus
/// those the commands queued.
pub proof fn law_queue_conserves_bytes(queued: nat, commands: Seq<(nat, bool)>)
    ensures
        queue_run(queued, commands).0 + queue_run(queued, commands).1 == queued + queued_total(
            commands,
        ),
    decreases commands.len(),
{
    if commands.len() > 0 {
        let (read, held) = queue_step(queued, commands[0].0, commands[0].1);
        law_queue_conserves_bytes(held, commands.drop_first());
    }
}

/// After a command that reads back immediately, nothing is held, so a
/// following immediate command reads back exactly what it queues itself.
pub proof fn law_immediate_read_empties_queue(queued: nat, first: nat, second: nat)
    ensures
        queue_step(queue_step(queued, first, true).1, second, true) == (second, 0nat),
{
}

/// Whether draining goes on after a read from the probe: it does while reads
/// keep returning data (`None` stands for a failed read).
pub fn drain_continues(bytes_read: Option<usize>) -> (r: bool)
    ensures
        r == (bytes_read matches Some(n) && n != 0),
{
    match bytes_read {
        Some(n) => n != 0,
        None => false,
    }
}

/// Reasons why a probe could not be opened.
#[derive(Debug)]
pub enum ProbeCreationError {
    /// No matching probe was found.
    NotFound,
    /// Some other reason.
    Other(&'static str),
}

/// A factory for creating ['LoongsonEjtag'] probes.
#[derive(Clone, Copy, Debug, PartialEq, Eq, Structural)]
pub struct LoongsonEjtagFactory;

impl LoongsonEjtagFactory {
    /// The name under which the factory shows itself.
    pub fn display_name(&self) -> (r: &'static str)
        ensures
            r == "Loongson EJTAG",
    {
        "Loongson EJTAG"
    }
}

/// The `i`-th hexadecimal digit of `v`, counted from the most significant of eight.
pub open spec fn nibble(v: u32, i: nat) -> u32 {
    (v >> ((28 - 4 * i) as u32)) & 0xf
}

/// The ASCII upper-case hexadecimal digit for `d` (0..=15).
pub open spec fn hex_digit(d: u32) -> u8 {
    if d < 10 {
        (0x30 + d) as u8
    } else {
        (0x41 + d - 10) as u8
    }
}

/// `v` written as eight upper-case hexadecimal ASCII digits, as `{:08X}` does.
pub open spec fn version_digits(v: u32) -> Seq<u8> {
    Seq::new(8, |i: int| hex_digit(nibble(v, i as nat)))
}

/// Every digit of `v` is a decimal digit: `v` reads as an 8-digit BCD number.
pub open spec fn is_bcd(v: u32) -> bool {
    forall|i: nat| i < 8 ==> #[trigger] nibble(v, i) <= 9
}

/// An ASCII decimal digit.
pub open spec fn is_ascii_digit(c: u8) -> bool {
    0x30 <= c <= 0x39
}

/// The firmware version as printed: eight upper-case hexadecimal ASCII digits.
pub fn firmware_version_digits(version: u32) -> (r: Vec<u8>)
    ensures
        r@ == version_digits(version),
{
    let mut r: Vec<u8> = Vec::new();
    let mut i: u32 = 0;
    while i < 8
        invariant
            i <= 8,
            r@.len() == i,
            forall|j: int| 0 <= j < i ==> r@[j] == hex_digit(nibble(version, j as nat)),
        decreases 8 - i,
    {
        let shift: u32 = 28 - 4 * i;
        let d: u32 = (version >> shift) & 0xf;
        assert(d < 16) by (bit_vector)
            requires
                d == (version >> shift) & 0xf,
        ;
        let c: u8 = if d < 10 {
            (0x30 + d) as u8
        } else {
            (0x41 + d - 10) as u8
        };
        r.push(c);
        i = i + 1;
    }
    proof {
        assert(r@ =~= version_digits(version));
    }
    r
}

/// A hexadecimal digit is below 16.
pub proof fn lemma_nibble_bound(v: u32, i: nat)
    ensures
        nibble(v, i) < 16,
{
    let shift: u32 = (28 - 4 * i) as u32;
    assert((v >> shift) & 0xf < 16) by (bit_vector);
}

/// A printed digit is a decimal digit exactly when the value digit is at most 9.
pub proof fn lemma_hex_digit_is_decimal(d: u32)
    requires
        d < 16,
    ensures
        is_ascii_digit(hex_digit(d)) <==> d <= 9,
{
}

/// Whether the firmware version, printed as eight hexadecimal digits, shows
/// decimal digits only.
pub fn firmware_version_is_valid(version: u32) -> (r: bool)
    ensures
        r == (forall|i: int| 0 <= i < 8 ==> is_ascii_digit(#[trigger] version_digits(version)[i])),
        r == is_bcd(version),
{
    let digits = firmware_version_digits(version);
    let mut i: usize = 0;
    while i < digits.len()
        invariant
            digits@ == version_digits(version),
            i <= digits@.len(),
            forall|j: int| 0 <= j < i ==> is_ascii_digit(#[trigger] digits@[j]),
        decreases digits.len() - i,
    {
        let c = digits[i];
        if !(0x30 <= c && c <= 0x39) {
            proof {
                let d = nibble(version, i as nat);
                lemma_nibble_bound(version, i as nat);
                lemma_hex_digit_is_decimal(d);
                assert(!is_ascii_digit(version_digits(version)[i as int]));
            }
            return false;
        }
        i = i + 1;
    }
    proof {
        assert forall|k: nat| k < 8 implies #[trigger] nibble(version, k) <= 9 by {
            let d = nibble(version, k);
            lemma_nibble_bound(version, k);
            lemma_hex_digit_is_decimal(d);
            assert(is_ascii_digit(digits@[k as int]));
        }
    }
    true
}

/// Checks the firmware version code a freshly opened probe reports: it is
/// expected to be a valid BCD number.
pub fn check_firmware_version(version: u32) -> (r: Result<(), ProbeCreationError>)
    ensures
        r is Ok <==> is_bcd(version),
        r is Err ==> r == Err::<(), ProbeCreationError>(
            ProbeCreationError::Other("Invalid version number"),
        ),
{
    if !firmware_version_is_valid(version) {
        return Err(ProbeCreationError::Other("Invalid version number"));
    }
    Ok(())
}

/// Clock division set when a probe is opened.
pub const LSEJTAG_INITIAL_CLOCK_DIV: u32 = 8;

/// JTAG clock speed, in kHz, that the initial clock division gives.
pub const LSEJTAG_INITIAL_SPEED_KHZ: u32 = 2000;

/// What is decided about a freshly opened probe.
#[derive(Clone, Copy, Debug)]
pub struct ProbeSetup {
    /// The firmware version code the probe reported.
    pub firmware_version: u32,
    /// The JTAG clock speed the probe starts at, in kHz.
    pub speed_khz: u32,
}

/// Decides, from the firmware version a freshly opened probe reports,
/// whether the probe can be used (the version must be a valid BCD number)
/// and at which speed it starts (~2000 kHz).
pub fn probe_setup(firmware_version: u32) -> (r: Result<ProbeSetup, ProbeCreationError>)
    ensures
        r is Ok <==> is_bcd(firmware_version),
        r matches Ok(setup) ==> setup.firmware_version == firmware_version && setup.speed_khz
            == LSEJTAG_INITIAL_SPEED_KHZ,
        r is Err ==> r == Err::<ProbeSetup, ProbeCreationError>(
            ProbeCreationError::Other("Invalid version number"),
        ),
{
    match check_firmware_version(firmware_version) {
        Ok(()) => Ok(ProbeSetup { firmware_version, speed_khz: LSEJTAG_INITIAL_SPEED_KHZ }),
        Err(e) => Err(e),
    }
}

/// The command that sets the probe speed to ~2000 kHz (8 divisions): a
/// write of the initial division to the JTAG clock division register.
pub fn set_initial_speed_command() -> (r: ProbeMemoryRWCommand)
    ensures
        r.address == LSEJTAG_ADDR_REG_CLOCK_DIV,
        r.write_data == Some(LSEJTAG_INITIAL_CLOCK_DIV),
{
    ProbeMemoryRWCommand {
        address: LSEJTAG_ADDR_REG_CLOCK_DIV,
        write_data: Some(LSEJTAG_INITIAL_CLOCK_DIV),
    }
}

} // verus!
