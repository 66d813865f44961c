//! The controller's command catalog: a closed set of opcodes with documented
//! payload shapes, plus the small pack/unpack helpers that several payloads
//! share.

use vstd::prelude::*;

verus! {

/// The controller's opcodes. Each variant's opcode byte is given by
/// [`spec_opcode`]; the payload each command takes is documented here.
#[derive(Clone, Copy, Debug)]
pub enum Command {
    /// Payload: gate-count-minus-one as a 9-bit value split low byte first,
    /// then a byte carrying only the 9th bit, then a gate-scan-mode byte
    /// (0x00 selects the default scan order).
    DriverOutputControl,
    /// Payload: three booster soft-start timing bytes, one per phase.
    BoosterSoftStartControl,
    /// Payload: a scan start row, split as low byte then high bit.
    GateScanStartPosition,
    /// Payload: one byte; bit 0 set enters deep sleep, clear resumes
    /// normal mode.
    DeepSleepMode,
    /// Payload: one byte of which the low three bits matter: bits 1..0
    /// select the X/Y address-counter auto-increment directions (see
    /// [`EntryMode`]), bit 2 picks the direction the counter advances in
    /// after each RAM write.
    DataEntryModeSetting,
    /// No payload. Resets commands and parameters to their power-on values,
    /// deep-sleep mode and RAM excepted.
    SwReset,
    /// Payload: a 12-bit external temperature reading, high bits first.
    TemperatureSensorControl,
    /// No payload. Activates the display update sequence configured by
    /// `DisplayUpdateControl2`; the sequence must not be interrupted, or the
    /// panel image is corrupted.
    MasterActivation,
    /// Payload: one byte of RAM-bypass options for pattern display.
    DisplayUpdateControl1,
    /// Payload: one stage-enable bitmask for the display update sequence,
    /// performed from bit 7 down to bit 0: clock enable (0x80), charge-pump
    /// enable (0x40), load temperature (0x20), load waveform table (0x10),
    /// initial display (0x08), display pattern (0x04), charge-pump disable
    /// (0x02), clock disable (0x01).
    DisplayUpdateControl2,
    /// Data bytes sent after this command go to RAM until another command
    /// arrives; the address counter advances as `DataEntryModeSetting` says.
    WriteRam,
    /// Payload: one VCOM level byte.
    WriteVcomRegister,
    /// Payload: the 30-byte waveform table.
    WriteLutRegister,
    /// Payload: one dummy-line-period byte in gate-time units.
    SetDummyLinePeriod,
    /// Payload: one gate-line-width timing byte.
    SetGateLineWidth,
    /// Payload: one border-waveform selection byte.
    BorderWaveformControl,
    /// Payload: X window start then end, each one byte in byte units.
    SetRamXAddressStartEndPosition,
    /// Payload: Y window start then end, each a 9-bit split (low byte, then
    /// the high bit's byte), in pixel units.
    SetRamYAddressStartEndPosition,
    /// Payload: the X address counter origin, one byte in byte units.
    SetRamXAddressCounter,
    /// Payload: the Y address counter origin as a 9-bit split.
    SetRamYAddressCounter,
    /// No payload and no effect; terminates an open `WriteRam` transfer.
    Nop,
}

/// The opcode byte of each command, exactly as the controller documents it.
pub open spec fn spec_opcode(cmd: Command) -> u8 {
    match cmd {
        Command::DriverOutputControl => 0x01,
        Command::BoosterSoftStartControl => 0x0c,
        Command::GateScanStartPosition => 0x0f,
        Command::DeepSleepMode => 0x10,
        Command::DataEntryModeSetting => 0x11,
        Command::SwReset => 0x12,
        Command::TemperatureSensorControl => 0x1a,
        Command::MasterActivation => 0x20,
        Command::DisplayUpdateControl1 => 0x21,
        Command::DisplayUpdateControl2 => 0x22,
        Command::WriteRam => 0x24,
        Command::WriteVcomRegister => 0x2c,
        Command::WriteLutRegister => 0x32,
        Command::SetDummyLinePeriod => 0x3a,
        Command::SetGateLineWidth => 0x3b,
        Command::BorderWaveformControl => 0x3c,
        Command::SetRamXAddressStartEndPosition => 0x44,
        Command::SetRamYAddressStartEndPosition => 0x45,
        Command::SetRamXAddressCounter => 0x4e,
        Command::SetRamYAddressCounter => 0x4f,
        Command::Nop => 0xff,
    }
}

/// Returns the opcode byte of `cmd`.
pub fn opcode(cmd: Command) -> (r: u8)
    ensures
        r == spec_opcode(cmd),
{
    match cmd {
        Command::DriverOutputControl => 0x01,
        Command::BoosterSoftStartControl => 0x0c,
        Command::GateScanStartPosition => 0x0f,
        Command::DeepSleepMode => 0x10,
        Command::DataEntryModeSetting => 0x11,
        Command::SwReset => 0x12,
        Command::TemperatureSensorControl => 0x1a,
        Command::MasterActivation => 0x20,
        Command::DisplayUpdateControl1 => 0x21,
        Command::DisplayUpdateControl2 => 0x22,
        Command::WriteRam => 0x24,
        Command::WriteVcomRegister => 0x2c,
        Command::WriteLutRegister => 0x32,
        Command::SetDummyLinePeriod => 0x3a,
        Command::SetGateLineWidth => 0x3b,
        Command::BorderWaveformControl => 0x3c,
        Command::SetRamXAddressStartEndPosition => 0x44,
        Command::SetRamYAddressStartEndPosition => 0x45,
        Command::SetRamXAddressCounter => 0x4e,
        Command::SetRamYAddressCounter => 0x4f,
        Command::Nop => 0xff,
    }
}

/// The four X/Y address-counter auto-increment combinations the controller's
/// data entry mode offers.
#[derive(Clone, Copy, Debug)]
pub enum EntryMode {
    XDecrementYDecrement,
    XIncrementYDecrement,
    XDecrementYIncrement,
    XIncrementYIncrement,
}

/// The two-bit selector each entry mode stands for, as the
/// `DataEntryModeSetting` payload expects it: bit 0 set increments X,
/// bit 1 set increments Y.
pub open spec fn spec_entry_mode_bits(mode: EntryMode) -> u8 {
    match mode {
        EntryMode::XDecrementYDecrement => 0x00,
        EntryMode::XIncrementYDecrement => 0x01,
        EntryMode::XDecrementYIncrement => 0x02,
        EntryMode::XIncrementYIncrement => 0x03,
    }
}

/// Returns the entry-mode selector byte of `mode`.
pub fn entry_mode_bits(mode: EntryMode) -> (r: u8)
    ensures
        r == spec_entry_mode_bits(mode),
{
    match mode {
        EntryMode::XDecrementYDecrement => 0x00,
        EntryMode::XIncrementYDecrement => 0x01,
        EntryMode::XDecrementYIncrement => 0x02,
        EntryMode::XIncrementYIncrement => 0x03,
    }
}

/// The low byte of a 16-bit register value.
pub open spec fn spec_low_byte(v: u16) -> u8 {
    (v % 256) as u8
}

/// The high byte of a 16-bit register value.
pub open spec fn spec_high_byte(v: u16) -> u8 {
    (v / 256) as u8
}

/// Splits a register value into its low and high byte, the order in which
/// the controller's 9-bit Y-direction registers take them. The two bytes
/// recombine to the value, so the encoding loses nothing.
pub fn split_high_low(v: u16) -> (r: (u8, u8))
    ensures
        r.0 == spec_low_byte(v),
        r.1 == spec_high_byte(v),
        r.0 + 256 * (r.1 as u16) == v,
{
    proof {
        assert((v & 0xff) == v % 256 && (v >> 8) == v / 256 && (v & 0xff) + 256 * (v >> 8) == v)
            by (bit_vector);
    }
    ((v & 0xff) as u8, (v >> 8) as u8)
}

/// The byte carrying only the 9th bit of a 9-bit value, as the
/// `DriverOutputControl` payload expects it.
pub open spec fn spec_ninth_bit(v: u16) -> u8 {
    ((v / 256) % 2) as u8
}

/// Extracts the 9th bit of `v` into a byte of its own.
pub fn ninth_bit(v: u16) -> (r: u8)
    ensures
        r == spec_ninth_bit(v),
{
    proof {
        assert(((v >> 8) & 0x01) == (v / 256) % 2) by (bit_vector);
    }
    ((v >> 8) & 0x01) as u8
}

} // verus!
