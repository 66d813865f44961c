//! Per-panel calibration profiles: the value bundle the driver is built
//! from, and the presets for the known panel variants.

use vstd::prelude::*;

verus! {

use crate::command::EntryMode;

/// The known panel variants with a ready-made profile.
#[allow(non_camel_case_types)]
pub enum Preset {
    CFAP200200A0_154,
    CFAP200200A1_154,
}

/// Booster soft-start timing of the CFAP200200A0-154, per its sample code.
pub const SOFT_START_CFAP200200A0_154: [u8; 3] = [0xd7, 0xd6, 0x9d];

/// Booster soft-start timing of the CFAP200200A1-154, per its datasheet.
pub const SOFT_START_CFAP200200A1_154: [u8; 3] = [0xce, 0xce, 0x8d];

/// VCOM level of the CFAP200200A0-154, per its sample code.
pub const VCOM_CFAP200200A0_154: u8 = 0xa8;

/// VCOM level of the CFAP200200A1-154, per its sample code.
pub const VCOM_CFAP200200A1_154: u8 = 0x7f;

/// Dummy line period of the CFAP200200A0-154, per its sample code.
pub const DUMMY_LINE_CFAP200200A0_154: u8 = 0x1a;

/// Dummy line period of the CFAP200200A1-154, per its datasheet.
pub const DUMMY_LINE_CFAP200200A1_154: u8 = 0x1b;

/// Gate line width of the CFAP200200A0-154, per its sample code.
pub const GATE_LINE_CFAP200200A0_154: u8 = 0x08;

/// Gate line width of the CFAP200200A1-154; the two known panels coincide
/// here, but the field stays independently settable.
pub const GATE_LINE_CFAP200200A1_154: u8 = 0x08;

/// Full-update waveform table of the CFAP200200A0-154.
pub const LUT_FULL_CFAP200200A0_154: [u8; 30] = [
    0x02, 0x02, 0x01, 0x11, 0x12, 0x12, 0x22, 0x22, 0x66, 0x69, 0x69, 0x59, 0x58, 0x99, 0x99,
    0x88, 0x00, 0x00, 0x00, 0x00, 0xf8, 0xb4, 0x13, 0x51, 0x35, 0x51, 0x51, 0x19, 0x01, 0x00,
];

/// Full-update waveform table of the CFAP200200A1-154.
pub const LUT_FULL_CFAP200200A1_154: [u8; 30] = [
    0x66, 0x66, 0x44, 0x66, 0xaa, 0x11, 0x80, 0x08, 0x11, 0x18, 0x81, 0x18, 0x11, 0x88, 0x11,
    0x88, 0x11, 0x88, 0x00, 0x00, 0xff, 0xff, 0xff, 0xff, 0x5f, 0xaf, 0xff, 0xff, 0x2f, 0x00,
];

/// Partial-update waveform table of the CFAP200200A0-154.
pub const LUT_PART_CFAP200200A0_154: [u8; 30] = [
    0x10, 0x18, 0x18, 0x08, 0x18, 0x18, 0x08, 0x00, 0x00, 0x00, 0x00, 0x00, 0x00, 0x00, 0x00,
    0x00, 0x00, 0x00, 0x00, 0x00, 0x13, 0x14, 0x44, 0x12, 0x00, 0x00, 0x00, 0x00, 0x00, 0x00,
];

/// Partial-update waveform table of the CFAP200200A1-154.
pub const LUT_PART_CFAP200200A1_154: [u8; 30] = [
    0x10, 0x18, 0x18, 0x28, 0x18, 0x18, 0x18, 0x18, 0x08, 0x00, 0x00, 0x00, 0x00, 0x00, 0x00,
    0x00, 0x00, 0x00, 0x00, 0x00, 0x13, 0x11, 0x22, 0x63, 0x11, 0x00, 0x00, 0x00, 0x00, 0x00,
];

/// A panel's calibration constants and dimensions, gathered before the
/// driver is built and then owned (copied) by it.
pub struct ScreenBuilder {
    /// Panel width in pixels.
    pub x_size: u16,
    /// Panel height in pixels.
    pub y_size: u16,
    /// Booster soft-start timing, one byte per phase.
    pub soft_start: [u8; 3],
    /// VCOM level byte.
    pub vcom: u8,
    /// Dummy line period byte.
    pub dummy_line: u8,
    /// Gate line width byte.
    pub gate_line: u8,
    /// Address-counter auto-increment directions.
    pub entry_mode: EntryMode,
    /// 30-byte waveform table for full refreshes.
    pub lut_full: [u8; 30],
    /// 30-byte waveform table for partial refreshes.
    pub lut_part: [u8; 30],
}

/// The profile a preset stands for.
pub open spec fn preset_profile(preset: Preset) -> ScreenBuilder {
    match preset {
        Preset::CFAP200200A0_154 => ScreenBuilder {
            x_size: 200,
            y_size: 200,
            soft_start: SOFT_START_CFAP200200A0_154,
            vcom: VCOM_CFAP200200A0_154,
            dummy_line: DUMMY_LINE_CFAP200200A0_154,
            gate_line: GATE_LINE_CFAP200200A0_154,
            entry_mode: EntryMode::XIncrementYDecrement,
            lut_full: LUT_FULL_CFAP200200A0_154,
            lut_part: LUT_PART_CFAP200200A0_154,
        },
        Preset::CFAP200200A1_154 => ScreenBuilder {
            x_size: 200,
            y_size: 200,
            soft_start: SOFT_START_CFAP200200A1_154,
            vcom: VCOM_CFAP200200A1_154,
            dummy_line: DUMMY_LINE_CFAP200200A1_154,
            gate_line: GATE_LINE_CFAP200200A1_154,
            entry_mode: EntryMode::XIncrementYDecrement,
            lut_full: LUT_FULL_CFAP200200A1_154,
            lut_part: LUT_PART_CFAP200200A1_154,
        },
    }
}

impl ScreenBuilder {
    /// A profile is usable when both dimensions are nonzero and the width's
    /// byte count fits the one-byte X registers.
    pub open spec fn wf(&self) -> bool {
        &&& 1 <= self.x_size <= 2040
        &&& 1 <= self.y_size
    }

    /// Returns the fully populated profile of a known panel variant.
    pub fn preset(preset: Preset) -> (r: ScreenBuilder)
        ensures
            r == preset_profile(preset),
            r.wf(),
    {
        match preset {
            Preset::CFAP200200A0_154 => ScreenBuilder {
                x_size: 200,
                y_size: 200,
                soft_start: SOFT_START_CFAP200200A0_154,
                vcom: VCOM_CFAP200200A0_154,
                dummy_line: DUMMY_LINE_CFAP200200A0_154,
                gate_line: GATE_LINE_CFAP200200A0_154,
                entry_mode: EntryMode::XIncrementYDecrement,
                lut_full: LUT_FULL_CFAP200200A0_154,
                lut_part: LUT_PART_CFAP200200A0_154,
            },
            Preset::CFAP200200A1_154 => ScreenBuilder {
                x_size: 200,
                y_size: 200,
                soft_start: SOFT_START_CFAP200200A1_154,
                vcom: VCOM_CFAP200200A1_154,
                dummy_line: DUMMY_LINE_CFAP200200A1_154,
                gate_line: GATE_LINE_CFAP200200A1_154,
                entry_mode: EntryMode::XIncrementYDecrement,
                lut_full: LUT_FULL_CFAP200200A1_154,
                lut_part: LUT_PART_CFAP200200A1_154,
            },
        }
    }
}

/// The two known panel variants declare the same 200 by 200 pixel panel,
/// yet their profiles differ in the soft-start bytes, the VCOM byte, the
/// dummy-line byte and both waveform tables.
pub proof fn lemma_preset_variants_differ()
    ensures
        preset_profile(Preset::CFAP200200A0_154).x_size == 200,
        preset_profile(Preset::CFAP200200A0_154).y_size == 200,
        preset_profile(Preset::CFAP200200A1_154).x_size == 200,
        preset_profile(Preset::CFAP200200A1_154).y_size == 200,
        preset_profile(Preset::CFAP200200A0_154).soft_start@ != preset_profile(
            Preset::CFAP200200A1_154,
        ).soft_start@,
        preset_profile(Preset::CFAP200200A0_154).vcom != preset_profile(
            Preset::CFAP200200A1_154,
        ).vcom,
        preset_profile(Preset::CFAP200200A0_154).dummy_line != preset_profile(
            Preset::CFAP200200A1_154,
        ).dummy_line,
        preset_profile(Preset::CFAP200200A0_154).lut_full@ != preset_profile(
            Preset::CFAP200200A1_154,
        ).lut_full@,
        preset_profile(Preset::CFAP200200A0_154).lut_part@ != preset_profile(
            Preset::CFAP200200A1_154,
        ).lut_part@,
{
    assert(SOFT_START_CFAP200200A0_154@[0] == 0xd7 && SOFT_START_CFAP200200A1_154@[0] == 0xce);
    assert(LUT_FULL_CFAP200200A0_154@[0] == 0x02 && LUT_FULL_CFAP200200A1_154@[0] == 0x66);
    assert(LUT_PART_CFAP200200A0_154@[3] == 0x08 && LUT_PART_CFAP200200A1_154@[3] == 0x28);
}

} // verus!
