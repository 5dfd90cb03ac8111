# loongsonejtag

Host-side logic of the Loongson EJTAG debug probe, verified with Verus.

- `src/commands/` encodes the probe's commands (header bit fields, little-endian
  payloads), decodes their replies, and drives one command exchange as a state
  machine (`CommandTransfer`): what to write, how many reply bytes to read back,
  and what the reply means.
- `src/lib.rs` holds the device state (packet size, reply bytes queued in the
  probe), the send errors, and the firmware version check.
- `src/tools.rs` recognises a probe from its USB ids and endpoint descriptors.
- `app/` performs the USB transfers with `nusb` and carries the error types with
  their messages.
