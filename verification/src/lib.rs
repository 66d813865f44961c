//! Protocol driver for a bistable reflective display controller reached over
//! a synchronous serial bus with a data/command select line, a busy line and
//! a hardware reset line.
//!
//! The driver translates high-level operations (paint a rectangle of pixels,
//! refresh the panel) into the exact command and parameter bytes the
//! controller requires. Every operation's contract states the full byte-level
//! traffic it produces on the bus, over the [`bus::Transport`] capability
//! trait, so the encoding, the window addressing and the update sequencing
//! are verified once for every transport.

use vstd::prelude::*;

pub mod bus;
pub mod command;
pub mod profile;
pub mod recorder;
pub mod screen;

pub use bus::BusEvent;
pub use bus::Transport;
pub use command::Command;
pub use command::EntryMode;
pub use profile::Preset;
pub use profile::ScreenBuilder;
pub use recorder::Recorder;
pub use screen::Screen;
pub use screen::ScreenError;

verus! {

/// Number of bytes needed to hold `x` pixels at one bit per pixel,
/// rounding up: `ceil(x / 8)`.
pub open spec fn spec_byte_width(x: u16) -> int {
    (x + 7) / 8
}

/// Converts a width in pixels to a width in bytes, rounding up.
///
/// The result is the byte-unit width used by the controller's X-direction
/// address registers. Widths above 2040 pixels would not fit the one-byte
/// result the registers take.
pub fn width_pixels_to_bytes(x: u16) -> (r: u8)
    requires
        x <= 2040,
    ensures
        r as int == spec_byte_width(x),
{
    let sum = x + 7;
    proof {
        assert(sum >> 3 == sum / 8) by (bit_vector);
    }
    (sum >> 3) as u8
}

/// The byte width is the least number of bytes covering the pixels: it
/// covers `x` pixels, and for a nonzero width one byte fewer would fall
/// short.
pub proof fn lemma_byte_width_rounds_up(x: u16)
    ensures
        8 * spec_byte_width(x) >= x,
        x > 0 ==> 8 * (spec_byte_width(x) - 1) < x,
{
}

} // verus!
