//! The stateful driver core: it owns the transport and the panel's
//! calibration copies, validates every addressing rectangle and buffer
//! length before a byte goes out, and produces exactly the documented
//! command traffic.

use vstd::prelude::*;

verus! {

use crate::bus::BusEvent;
use crate::bus::Transport;
use crate::bus::aborted_command_events;
use crate::bus::aborted_command_string_events;
use crate::bus::aborted_data_events;
use crate::bus::command_events;
use crate::bus::command_string_events;
use crate::bus::data_events;
use crate::bus::lemma_aborted_command_bytes;
use crate::bus::lemma_aborted_command_string_bytes;
use crate::bus::lemma_command_bytes;
use crate::bus::lemma_command_string_bytes;
use crate::bus::lemma_prefix_extends;
use crate::bus::lemma_stopped_short_extend;
use crate::bus::lemma_stopped_short_lift;
use crate::bus::lemma_prefix_under_concat;
use crate::bus::lemma_sent_bytes_concat;
use crate::bus::lemma_transfer_events_bytes;
use crate::bus::sent_bytes;
use crate::bus::stopped_short;
use crate::bus::transfer_events;
use crate::command::Command;
use crate::command::spec_opcode;
use crate::command::spec_low_byte;
use crate::command::spec_high_byte;
use crate::command::spec_ninth_bit;
use crate::command::spec_entry_mode_bits;
use crate::command::opcode;
use crate::command::entry_mode_bits;
use crate::command::split_high_low;
use crate::command::ninth_bit;
use crate::profile::ScreenBuilder;
use crate::spec_byte_width;
use crate::width_pixels_to_bytes;

/// What a driver operation can fail with.
#[derive(Clone, Copy, Debug)]
pub enum ScreenError<ERR> {
    /// A requested addressing rectangle exceeds the panel dimensions.
    BoundsError,
    /// A supplied pixel buffer's size does not match the declared
    /// rectangle's byte count.
    LengthError,
    /// The underlying transport failed; its error is wrapped unchanged,
    /// never inspected and never retried.
    SpiError(ERR),
}

/// The driver: owns the transport handles plus the panel's dimensions and
/// waveform-table copies, and turns high-level operations into command
/// traffic.
pub struct Screen<H: Transport> {
    hw: H,
    x_size: u16,
    y_size: u16,
    lut_full: [u8; 30],
    lut_part: [u8; 30],
}

impl<H: Transport> Screen<H> {
    /// Everything this driver has put on the bus, oldest first.
    pub closed spec fn events(&self) -> Seq<BusEvent> {
        self.hw.events()
    }

    /// How many times the busy line will still read high.
    pub closed spec fn busy_polls(&self) -> nat {
        self.hw.busy_polls()
    }

    /// Panel width in pixels.
    pub closed spec fn width(&self) -> u16 {
        self.x_size
    }

    /// Panel height in pixels.
    pub closed spec fn height(&self) -> u16 {
        self.y_size
    }

    /// The owned copy of the full-update waveform table.
    pub closed spec fn full_lut(&self) -> Seq<u8> {
        self.lut_full@
    }

    /// The owned copy of the partial-update waveform table.
    pub closed spec fn partial_lut(&self) -> Seq<u8> {
        self.lut_part@
    }

    /// A driver is usable when its panel dimensions are nonzero and the
    /// width's byte count fits the one-byte X registers.
    pub open spec fn wf(&self) -> bool {
        &&& 1 <= self.width() <= 2040
        &&& 1 <= self.height()
    }

    /// Borrows the owned transport, for callers that want to inspect it.
    pub fn transport(&self) -> (r: &H)
        ensures
            r.events() == self.events(),
            r.busy_polls() == self.busy_polls(),
    {
        &self.hw
    }
}

/// Two driver states that agree on the panel: same dimensions and the same
/// waveform-table copies. Every operation preserves this; only the bus
/// history moves.
pub open spec fn same_panel<H: Transport>(a: Screen<H>, b: Screen<H>) -> bool {
    &&& a.width() == b.width()
    &&& a.height() == b.height()
    &&& a.full_lut() == b.full_lut()
    &&& a.partial_lut() == b.partial_lut()
}

impl<H: Transport> Screen<H> {
    /// Sends one parameterless command: chip select asserted, the opcode as
    /// a command byte, chip select restored — also on the failure path.
    pub fn write_cmd(&mut self, cmd: Command) -> (r: Result<(), H::Error>)
        ensures
            same_panel(*old(self), *final(self)),
            r is Ok ==> final(self).events() == old(self).events() + command_events(
                spec_opcode(cmd),
            ),
            r is Err ==> final(self).events() == old(self).events() + aborted_command_events(),
            r is Err ==> stopped_short(
                final(self).events(),
                old(self).events(),
                seq![spec_opcode(cmd)],
            ),
    {
        self.hw.set_chip_select(false);
        self.hw.set_data_command(false);
        let sent = self.hw.exchange(opcode(cmd));
        self.hw.set_chip_select(true);
        match sent {
            Ok(_) => {
                proof {
                    assert(self.hw.events() =~= old(self).events() + command_events(
                        spec_opcode(cmd),
                    ));
                }
                Ok(())
            },
            Err(e) => {
                proof {
                    assert(self.hw.events() =~= old(self).events() + aborted_command_events());
                    lemma_aborted_command_bytes();
                    lemma_sent_bytes_concat(old(self).events(), aborted_command_events());
                    assert(sent_bytes(self.hw.events()) =~= (sent_bytes(old(self).events())
                        + seq![spec_opcode(cmd)]).subrange(
                        0,
                        sent_bytes(old(self).events()).len() as int,
                    ));
                }
                Err(e)
            },
        }
    }

    /// Sends one lone data byte: chip select asserted, the byte as data,
    /// chip select restored — also on the failure path.
    pub fn write_data(&mut self, data: u8) -> (r: Result<(), H::Error>)
        ensures
            same_panel(*old(self), *final(self)),
            r is Ok ==> final(self).events() == old(self).events() + data_events(data),
            r is Err ==> final(self).events() == old(self).events() + aborted_data_events(),
            r is Err ==> stopped_short(final(self).events(), old(self).events(), seq![data]),
    {
        self.hw.set_chip_select(false);
        self.hw.set_data_command(true);
        let sent = self.hw.exchange(data);
        self.hw.set_chip_select(true);
        match sent {
            Ok(_) => {
                proof {
                    assert(self.hw.events() =~= old(self).events() + data_events(data));
                }
                Ok(())
            },
            Err(e) => {
                proof {
                    assert(self.hw.events() =~= old(self).events() + aborted_data_events());
                    lemma_aborted_command_bytes();
                    lemma_sent_bytes_concat(old(self).events(), aborted_data_events());
                    assert(sent_bytes(self.hw.events()) =~= (sent_bytes(old(self).events())
                        + seq![data]).subrange(
                        0,
                        sent_bytes(old(self).events()).len() as int,
                    ));
                }
                Err(e)
            },
        }
    }

    /// Sends one command with a parameter string: the opcode as a command
    /// byte, then every payload byte as data, all under one chip-select
    /// assertion, restored on every exit path. On failure the traffic is an
    /// aborted frame: a strict prefix of the intended bytes went out.
    #[verifier::loop_isolation(false)]
    pub fn write_cmd_string(&mut self, cmd: Command, data: &[u8]) -> (r: Result<(), H::Error>)
        ensures
            same_panel(*old(self), *final(self)),
            r is Ok ==> final(self).events() == old(self).events() + command_string_events(
                spec_opcode(cmd),
                data@,
            ),
            r is Err ==> exists|n: int|
                -1 <= n < data@.len() && final(self).events() == old(self).events()
                    + aborted_command_string_events(spec_opcode(cmd), data@, n),
            r is Err ==> stopped_short(
                final(self).events(),
                old(self).events(),
                seq![spec_opcode(cmd)] + data@,
            ),
    {
        let op = opcode(cmd);
        self.hw.set_chip_select(false);
        self.hw.set_data_command(false);
        if let Err(e) = self.hw.exchange(op) {
            self.hw.set_chip_select(true);
            proof {
                assert(self.hw.events() =~= old(self).events() + aborted_command_string_events(
                    spec_opcode(cmd),
                    data@,
                    -1,
                ));
                lemma_aborted_command_string_bytes(spec_opcode(cmd), data@, -1);
                lemma_sent_bytes_concat(
                    old(self).events(),
                    aborted_command_string_events(spec_opcode(cmd), data@, -1),
                );
                assert(sent_bytes(self.hw.events()) =~= (sent_bytes(old(self).events()) + (seq![
                    spec_opcode(cmd),
                ] + data@)).subrange(0, sent_bytes(old(self).events()).len() as int));
            }
            return Err(e);
        }
        self.hw.set_data_command(true);
        let mut i: usize = 0;
        while i < data.len()
            invariant
                i <= data@.len(),
                self.hw.events() == old(self).events() + seq![
                    BusEvent::ChipSelect(false),
                    BusEvent::DataCommand(false),
                    BusEvent::Transfer(spec_opcode(cmd)),
                    BusEvent::DataCommand(true),
                ] + transfer_events(data@.take(i as int)),
                same_panel(*old(self), *self),
            decreases data@.len() - i,
        {
            if let Err(e) = self.hw.exchange(data[i]) {
                self.hw.set_chip_select(true);
                proof {
                    assert(self.hw.events() =~= old(self).events()
                        + aborted_command_string_events(spec_opcode(cmd), data@, i as int));
                    lemma_aborted_command_string_bytes(spec_opcode(cmd), data@, i as int);
                    lemma_sent_bytes_concat(
                        old(self).events(),
                        aborted_command_string_events(spec_opcode(cmd), data@, i as int),
                    );
                    assert((seq![spec_opcode(cmd)] + data@).take(i + 1).is_prefix_of(
                        seq![spec_opcode(cmd)] + data@,
                    ));
                    lemma_prefix_under_concat(
                        sent_bytes(old(self).events()),
                        (seq![spec_opcode(cmd)] + data@).take(i + 1),
                        seq![spec_opcode(cmd)] + data@,
                    );
                }
                return Err(e);
            }
            proof {
                assert(data@.take(i + 1) =~= data@.take(i as int).push(data@[i as int]));
                assert(transfer_events(data@.take(i + 1)) =~= transfer_events(
                    data@.take(i as int),
                ).push(BusEvent::Transfer(data@[i as int])));
            }
            i += 1;
        }
        self.hw.set_chip_select(true);
        proof {
            assert(data@.take(data@.len() as int) =~= data@);
            assert(self.hw.events() =~= old(self).events() + command_string_events(
                spec_opcode(cmd),
                data@,
            ));
        }
        Ok(())
    }
}


/// Display-update stage mask that enables the clock and the charge pump
/// only: the power-on micro-sequence.
pub const STAGES_POWER_ON: u8 = 0xc0;

/// Display-update stage mask that disables the clock and the charge pump:
/// the power-off micro-sequence.
pub const STAGES_POWER_OFF: u8 = 0xc3;

/// Display-update stage mask for a full refresh: clock and charge-pump
/// enable plus the display-pattern stage.
pub const STAGES_FULL_UPDATE: u8 = 0xc7;

/// Display-update stage mask for a partial refresh: the display-pattern
/// stage alone, reusing the already-enabled analog rails.
pub const STAGES_PARTIAL_UPDATE: u8 = 0x04;

/// The traffic of writing a waveform table.
pub open spec fn lut_write_events(lut: Seq<u8>) -> Seq<BusEvent> {
    command_string_events(spec_opcode(Command::WriteLutRegister), lut)
}

/// The traffic of the power-on operation: configure the power-on stages,
/// then trigger the update sequence. The busy wait that follows leaves no
/// trace on the bus.
pub open spec fn power_on_events() -> Seq<BusEvent> {
    command_string_events(spec_opcode(Command::DisplayUpdateControl2), seq![STAGES_POWER_ON])
        + command_events(spec_opcode(Command::MasterActivation))
}

/// The traffic of the power-off operation: configure the power-off stages,
/// then trigger the update sequence.
pub open spec fn power_off_events() -> Seq<BusEvent> {
    command_string_events(spec_opcode(Command::DisplayUpdateControl2), seq![STAGES_POWER_OFF])
        + command_events(spec_opcode(Command::MasterActivation))
}

/// The traffic of triggering a full refresh: configure the full-update
/// stages, trigger the update sequence, then a no-op to terminate any
/// still-open RAM write.
pub open spec fn update_full_events() -> Seq<BusEvent> {
    command_string_events(spec_opcode(Command::DisplayUpdateControl2), seq![STAGES_FULL_UPDATE])
        + command_events(spec_opcode(Command::MasterActivation)) + command_events(
        spec_opcode(Command::Nop),
    )
}

/// The traffic of triggering a partial refresh: configure the
/// pattern-display stage, trigger the update sequence, then a no-op.
pub open spec fn update_partial_events() -> Seq<BusEvent> {
    command_string_events(spec_opcode(Command::DisplayUpdateControl2), seq![STAGES_PARTIAL_UPDATE])
        + command_events(spec_opcode(Command::MasterActivation)) + command_events(
        spec_opcode(Command::Nop),
    )
}

/// One successful write of the full-update waveform table: the panel state
/// is untouched and the bus gains exactly the table's command frame, built
/// from the driver's own stored copy.
pub open spec fn full_lut_load_step<H: Transport>(pre: Screen<H>, post: Screen<H>) -> bool {
    &&& same_panel(pre, post)
    &&& post.events() == pre.events() + lut_write_events(pre.full_lut())
}

/// One successful write of the partial-update waveform table.
pub open spec fn partial_lut_load_step<H: Transport>(pre: Screen<H>, post: Screen<H>) -> bool {
    &&& same_panel(pre, post)
    &&& post.events() == pre.events() + lut_write_events(pre.partial_lut())
}

/// Loading a waveform table is idempotent: the driver's stored copy never
/// changes, so two successful loads in a row send the identical command
/// frame — the same thirty payload bytes — both times.
pub proof fn lemma_full_lut_reload_idempotent<H: Transport>(s0: Screen<H>, s1: Screen<H>, s2: Screen<H>)
    requires
        full_lut_load_step(s0, s1),
        full_lut_load_step(s1, s2),
    ensures
        s2.events() == s0.events() + lut_write_events(s0.full_lut()) + lut_write_events(
            s0.full_lut(),
        ),
        sent_bytes(s2.events()) == sent_bytes(s0.events()) + (seq![
            spec_opcode(Command::WriteLutRegister),
        ] + s0.full_lut()) + (seq![spec_opcode(Command::WriteLutRegister)] + s0.full_lut()),
{
    let frame = lut_write_events(s0.full_lut());
    assert(s2.events() == s0.events() + frame + frame);
    lemma_sent_bytes_concat(s0.events() + frame, frame);
    lemma_sent_bytes_concat(s0.events(), frame);
    lemma_command_string_bytes(spec_opcode(Command::WriteLutRegister), s0.full_lut());
}

impl<H: Transport> Screen<H> {
    /// Writes the owned full-update waveform table to the controller's
    /// waveform register. Stateless on the driver's side: the caller reloads
    /// before switching refresh modes.
    pub fn load_full_update_lut(&mut self) -> (r: Result<(), H::Error>)
        ensures
            same_panel(*old(self), *final(self)),
            r is Ok ==> full_lut_load_step(*old(self), *final(self)),
            r is Err ==> stopped_short(
                final(self).events(),
                old(self).events(),
                seq![spec_opcode(Command::WriteLutRegister)] + old(self).full_lut(),
            ),
    {
        let lut_full_update = self.lut_full;
        self.write_cmd_string(Command::WriteLutRegister, lut_full_update.as_slice())
    }

    /// Writes the owned partial-update waveform table to the controller's
    /// waveform register.
    pub fn load_partial_update_lut(&mut self) -> (r: Result<(), H::Error>)
        ensures
            same_panel(*old(self), *final(self)),
            r is Ok ==> partial_lut_load_step(*old(self), *final(self)),
            r is Err ==> stopped_short(
                final(self).events(),
                old(self).events(),
                seq![spec_opcode(Command::WriteLutRegister)] + old(self).partial_lut(),
            ),
    {
        let lut_partial_update = self.lut_part;
        self.write_cmd_string(Command::WriteLutRegister, lut_partial_update.as_slice())
    }

    /// Powers the analog rails up: enables the clock and charge-pump stages,
    /// triggers the update sequence, and blocks until the controller's busy
    /// line clears.
    #[verifier::loop_isolation(false)]
    pub fn power_on(&mut self) -> (r: Result<(), H::Error>)
        ensures
            same_panel(*old(self), *final(self)),
            r is Ok ==> final(self).events() == old(self).events() + power_on_events()
                && final(self).busy_polls() == 0,
            r is Err ==> stopped_short(
                final(self).events(),
                old(self).events(),
                sent_bytes(power_on_events()),
            ),
    {
        let mask: [u8; 1] = [STAGES_POWER_ON];
        proof {
            lemma_power_on_bytes();
            assert(mask@ =~= seq![STAGES_POWER_ON]);
        }
        if let Err(e) = self.write_cmd_string(Command::DisplayUpdateControl2, mask.as_slice()) {
            proof {
                lemma_stopped_short_extend(
                    self.events(),
                    old(self).events(),
                    seq![spec_opcode(Command::DisplayUpdateControl2)] + mask@,
                    seq![spec_opcode(Command::MasterActivation)],
                );
            }
            return Err(e);
        }
        let ghost mid = self.events();
        let ghost frame1 = command_string_events(
            spec_opcode(Command::DisplayUpdateControl2),
            seq![STAGES_POWER_ON],
        );
        if let Err(e) = self.write_cmd(Command::MasterActivation) {
            proof {
                lemma_command_string_bytes(
                    spec_opcode(Command::DisplayUpdateControl2),
                    seq![STAGES_POWER_ON],
                );
                assert(sent_bytes(power_on_events()) =~= sent_bytes(frame1) + seq![
                    spec_opcode(Command::MasterActivation),
                ] + Seq::<u8>::empty());
                lemma_stopped_short_lift(
                    old(self).events(),
                    mid,
                    self.events(),
                    frame1,
                    seq![spec_opcode(Command::MasterActivation)],
                    Seq::empty(),
                    sent_bytes(power_on_events()),
                );
            }
            return Err(e);
        }
        let mut busy = self.hw.poll_busy();
        while busy
            invariant
                self.hw.events() == old(self).events() + power_on_events(),
                same_panel(*old(self), *self),
                !busy ==> self.hw.busy_polls() == 0,
            decreases self.hw.busy_polls() + (if busy { 1int } else { 0int }),
        {
            busy = self.hw.poll_busy();
        }
        proof {
            assert(self.hw.events() =~= old(self).events() + power_on_events());
        }
        Ok(())
    }

    /// Powers the analog rails down: enables the clock and charge-pump
    /// disable stages and triggers the update sequence. No busy wait is
    /// performed here.
    pub fn power_off(&mut self) -> (r: Result<(), H::Error>)
        ensures
            same_panel(*old(self), *final(self)),
            r is Ok ==> final(self).events() == old(self).events() + power_off_events(),
            r is Err ==> stopped_short(
                final(self).events(),
                old(self).events(),
                sent_bytes(power_off_events()),
            ),
    {
        let mask: [u8; 1] = [STAGES_POWER_OFF];
        proof {
            lemma_power_off_bytes();
            assert(mask@ =~= seq![STAGES_POWER_OFF]);
        }
        if let Err(e) = self.write_cmd_string(Command::DisplayUpdateControl2, mask.as_slice()) {
            proof {
                lemma_stopped_short_extend(
                    self.events(),
                    old(self).events(),
                    seq![spec_opcode(Command::DisplayUpdateControl2)] + mask@,
                    seq![spec_opcode(Command::MasterActivation)],
                );
            }
            return Err(e);
        }
        let ghost mid = self.events();
        let ghost frame1 = command_string_events(
            spec_opcode(Command::DisplayUpdateControl2),
            seq![STAGES_POWER_OFF],
        );
        if let Err(e) = self.write_cmd(Command::MasterActivation) {
            proof {
                lemma_command_string_bytes(
                    spec_opcode(Command::DisplayUpdateControl2),
                    seq![STAGES_POWER_OFF],
                );
                assert(sent_bytes(power_off_events()) =~= sent_bytes(frame1) + seq![
                    spec_opcode(Command::MasterActivation),
                ] + Seq::<u8>::empty());
                lemma_stopped_short_lift(
                    old(self).events(),
                    mid,
                    self.events(),
                    frame1,
                    seq![spec_opcode(Command::MasterActivation)],
                    Seq::empty(),
                    sent_bytes(power_off_events()),
                );
            }
            return Err(e);
        }
        proof {
            assert(self.hw.events() =~= old(self).events() + power_off_events());
        }
        Ok(())
    }
}

/// The bytes of the power-on traffic, spelled out.
pub proof fn lemma_power_on_bytes()
    ensures
        sent_bytes(power_on_events()) == seq![
            spec_opcode(Command::DisplayUpdateControl2),
            STAGES_POWER_ON,
            spec_opcode(Command::MasterActivation),
        ],
{
    let f1 = command_string_events(
        spec_opcode(Command::DisplayUpdateControl2),
        seq![STAGES_POWER_ON],
    );
    lemma_sent_bytes_concat(f1, command_events(spec_opcode(Command::MasterActivation)));
    lemma_command_string_bytes(
        spec_opcode(Command::DisplayUpdateControl2),
        seq![STAGES_POWER_ON],
    );
    lemma_command_bytes(spec_opcode(Command::MasterActivation));
    assert(sent_bytes(power_on_events()) =~= seq![
        spec_opcode(Command::DisplayUpdateControl2),
        STAGES_POWER_ON,
        spec_opcode(Command::MasterActivation),
    ]);
}

/// The bytes of the power-off traffic, spelled out.
pub proof fn lemma_power_off_bytes()
    ensures
        sent_bytes(power_off_events()) == seq![
            spec_opcode(Command::DisplayUpdateControl2),
            STAGES_POWER_OFF,
            spec_opcode(Command::MasterActivation),
        ],
{
    let f1 = command_string_events(
        spec_opcode(Command::DisplayUpdateControl2),
        seq![STAGES_POWER_OFF],
    );
    lemma_sent_bytes_concat(f1, command_events(spec_opcode(Command::MasterActivation)));
    lemma_command_string_bytes(
        spec_opcode(Command::DisplayUpdateControl2),
        seq![STAGES_POWER_OFF],
    );
    lemma_command_bytes(spec_opcode(Command::MasterActivation));
    assert(sent_bytes(power_off_events()) =~= seq![
        spec_opcode(Command::DisplayUpdateControl2),
        STAGES_POWER_OFF,
        spec_opcode(Command::MasterActivation),
    ]);
}


/// The bytes of the full-refresh trigger traffic, spelled out.
pub proof fn lemma_update_full_bytes()
    ensures
        sent_bytes(update_full_events()) == seq![
            spec_opcode(Command::DisplayUpdateControl2),
            STAGES_FULL_UPDATE,
            spec_opcode(Command::MasterActivation),
            spec_opcode(Command::Nop),
        ],
{
    let f1 = command_string_events(
        spec_opcode(Command::DisplayUpdateControl2),
        seq![STAGES_FULL_UPDATE],
    );
    let f2 = command_events(spec_opcode(Command::MasterActivation));
    let f3 = command_events(spec_opcode(Command::Nop));
    lemma_sent_bytes_concat(f1 + f2, f3);
    lemma_sent_bytes_concat(f1, f2);
    lemma_command_string_bytes(
        spec_opcode(Command::DisplayUpdateControl2),
        seq![STAGES_FULL_UPDATE],
    );
    lemma_command_bytes(spec_opcode(Command::MasterActivation));
    lemma_command_bytes(spec_opcode(Command::Nop));
    assert(sent_bytes(update_full_events()) =~= seq![
        spec_opcode(Command::DisplayUpdateControl2),
        STAGES_FULL_UPDATE,
        spec_opcode(Command::MasterActivation),
        spec_opcode(Command::Nop),
    ]);
}

/// The bytes of the partial-refresh trigger traffic, spelled out.
pub proof fn lemma_update_partial_bytes()
    ensures
        sent_bytes(update_partial_events()) == seq![
            spec_opcode(Command::DisplayUpdateControl2),
            STAGES_PARTIAL_UPDATE,
            spec_opcode(Command::MasterActivation),
            spec_opcode(Command::Nop),
        ],
{
    let f1 = command_string_events(
        spec_opcode(Command::DisplayUpdateControl2),
        seq![STAGES_PARTIAL_UPDATE],
    );
    let f2 = command_events(spec_opcode(Command::MasterActivation));
    let f3 = command_events(spec_opcode(Command::Nop));
    lemma_sent_bytes_concat(f1 + f2, f3);
    lemma_sent_bytes_concat(f1, f2);
    lemma_command_string_bytes(
        spec_opcode(Command::DisplayUpdateControl2),
        seq![STAGES_PARTIAL_UPDATE],
    );
    lemma_command_bytes(spec_opcode(Command::MasterActivation));
    lemma_command_bytes(spec_opcode(Command::Nop));
    assert(sent_bytes(update_partial_events()) =~= seq![
        spec_opcode(Command::DisplayUpdateControl2),
        STAGES_PARTIAL_UPDATE,
        spec_opcode(Command::MasterActivation),
        spec_opcode(Command::Nop),
    ]);
}

impl<H: Transport> Screen<H> {
    /// Triggers a full refresh: clock and charge-pump enable plus the
    /// display-pattern stage, then a no-op to terminate any open RAM write.
    /// Does not busy-wait: the caller must let the busy line clear before
    /// any further RAM write or power-off, or the panel image is corrupted.
    pub fn update_full(&mut self) -> (r: Result<(), H::Error>)
        ensures
            same_panel(*old(self), *final(self)),
            r is Ok ==> final(self).events() == old(self).events() + update_full_events(),
            r is Err ==> stopped_short(
                final(self).events(),
                old(self).events(),
                sent_bytes(update_full_events()),
            ),
    {
        let mask: [u8; 1] = [STAGES_FULL_UPDATE];
        let ghost f1 = command_string_events(
            spec_opcode(Command::DisplayUpdateControl2),
            seq![STAGES_FULL_UPDATE],
        );
        let ghost f2 = command_events(spec_opcode(Command::MasterActivation));
        let ghost f3 = command_events(spec_opcode(Command::Nop));
        proof {
            lemma_update_full_bytes();
            lemma_command_string_bytes(
                spec_opcode(Command::DisplayUpdateControl2),
                seq![STAGES_FULL_UPDATE],
            );
            lemma_command_bytes(spec_opcode(Command::MasterActivation));
            lemma_sent_bytes_concat(f1, f2);
            assert(mask@ =~= seq![STAGES_FULL_UPDATE]);
        }
        if let Err(e) = self.write_cmd_string(Command::DisplayUpdateControl2, mask.as_slice()) {
            proof {
                lemma_stopped_short_extend(
                    self.events(),
                    old(self).events(),
                    seq![spec_opcode(Command::DisplayUpdateControl2)] + mask@,
                    seq![spec_opcode(Command::MasterActivation), spec_opcode(Command::Nop)],
                );
                assert((seq![spec_opcode(Command::DisplayUpdateControl2)] + mask@) + seq![
                    spec_opcode(Command::MasterActivation),
                    spec_opcode(Command::Nop),
                ] =~= sent_bytes(update_full_events()));
            }
            return Err(e);
        }
        let ghost mid1 = self.events();
        if let Err(e) = self.write_cmd(Command::MasterActivation) {
            proof {
                assert(sent_bytes(update_full_events()) =~= sent_bytes(f1) + seq![
                    spec_opcode(Command::MasterActivation),
                ] + seq![spec_opcode(Command::Nop)]);
                lemma_stopped_short_lift(
                    old(self).events(),
                    mid1,
                    self.events(),
                    f1,
                    seq![spec_opcode(Command::MasterActivation)],
                    seq![spec_opcode(Command::Nop)],
                    sent_bytes(update_full_events()),
                );
            }
            return Err(e);
        }
        let ghost mid2 = self.events();
        if let Err(e) = self.write_cmd(Command::Nop) {
            proof {
                assert(mid2 =~= old(self).events() + (f1 + f2));
                assert(sent_bytes(update_full_events()) =~= sent_bytes(f1 + f2) + seq![
                    spec_opcode(Command::Nop),
                ] + Seq::<u8>::empty());
                lemma_stopped_short_lift(
                    old(self).events(),
                    old(self).events() + (f1 + f2),
                    self.events(),
                    f1 + f2,
                    seq![spec_opcode(Command::Nop)],
                    Seq::empty(),
                    sent_bytes(update_full_events()),
                );
            }
            return Err(e);
        }
        proof {
            assert(self.hw.events() =~= old(self).events() + update_full_events());
        }
        Ok(())
    }

    /// Triggers a partial refresh: the display-pattern stage alone, reusing
    /// the already-enabled analog rails, then a no-op. Does not busy-wait.
    pub fn update_partial(&mut self) -> (r: Result<(), H::Error>)
        ensures
            same_panel(*old(self), *final(self)),
            r is Ok ==> final(self).events() == old(self).events() + update_partial_events(),
            r is Err ==> stopped_short(
                final(self).events(),
                old(self).events(),
                sent_bytes(update_partial_events()),
            ),
    {
        let mask: [u8; 1] = [STAGES_PARTIAL_UPDATE];
        let ghost f1 = command_string_events(
            spec_opcode(Command::DisplayUpdateControl2),
            seq![STAGES_PARTIAL_UPDATE],
        );
        let ghost f2 = command_events(spec_opcode(Command::MasterActivation));
        let ghost f3 = command_events(spec_opcode(Command::Nop));
        proof {
            lemma_update_partial_bytes();
            lemma_command_string_bytes(
                spec_opcode(Command::DisplayUpdateControl2),
                seq![STAGES_PARTIAL_UPDATE],
            );
            lemma_command_bytes(spec_opcode(Command::MasterActivation));
            lemma_sent_bytes_concat(f1, f2);
            assert(mask@ =~= seq![STAGES_PARTIAL_UPDATE]);
        }
        if let Err(e) = self.write_cmd_string(Command::DisplayUpdateControl2, mask.as_slice()) {
            proof {
                lemma_stopped_short_extend(
                    self.events(),
                    old(self).events(),
                    seq![spec_opcode(Command::DisplayUpdateControl2)] + mask@,
                    seq![spec_opcode(Command::MasterActivation), spec_opcode(Command::Nop)],
                );
                assert((seq![spec_opcode(Command::DisplayUpdateControl2)] + mask@) + seq![
                    spec_opcode(Command::MasterActivation),
                    spec_opcode(Command::Nop),
                ] =~= sent_bytes(update_partial_events()));
            }
            return Err(e);
        }
        let ghost mid1 = self.events();
        if let Err(e) = self.write_cmd(Command::MasterActivation) {
            proof {
                assert(sent_bytes(update_partial_events()) =~= sent_bytes(f1) + seq![
                    spec_opcode(Command::MasterActivation),
                ] + seq![spec_opcode(Command::Nop)]);
                lemma_stopped_short_lift(
                    old(self).events(),
                    mid1,
                    self.events(),
                    f1,
                    seq![spec_opcode(Command::MasterActivation)],
                    seq![spec_opcode(Command::Nop)],
                    sent_bytes(update_partial_events()),
                );
            }
            return Err(e);
        }
        let ghost mid2 = self.events();
        if let Err(e) = self.write_cmd(Command::Nop) {
            proof {
                assert(mid2 =~= old(self).events() + (f1 + f2));
                assert(sent_bytes(update_partial_events()) =~= sent_bytes(f1 + f2) + seq![
                    spec_opcode(Command::Nop),
                ] + Seq::<u8>::empty());
                lemma_stopped_short_lift(
                    old(self).events(),
                    old(self).events() + (f1 + f2),
                    self.events(),
                    f1 + f2,
                    seq![spec_opcode(Command::Nop)],
                    Seq::empty(),
                    sent_bytes(update_partial_events()),
                );
            }
            return Err(e);
        }
        proof {
            assert(self.hw.events() =~= old(self).events() + update_partial_events());
        }
        Ok(())
    }
}


/// Whether an addressing window exceeds the panel: X values are in byte
/// units and checked against the byte width, Y values are in pixel units
/// and checked against the pixel height. The controller would silently
/// wrap or misbehave on out-of-range addresses rather than reject them, so
/// this check is the driver's responsibility.
pub open spec fn out_of_bounds(
    width: u16,
    height: u16,
    x_start: u8,
    x_end: u8,
    y_start: u16,
    y_end: u16,
) -> bool {
    ||| x_start > spec_byte_width(width)
    ||| x_end > spec_byte_width(width)
    ||| y_start > height
    ||| y_end > height
}

/// The traffic of programming an addressing window, in the documented
/// order: X window, Y window (each bound split low byte then high byte),
/// X counter origin, Y counter origin.
pub open spec fn display_area_events(
    x_start: u8,
    x_end: u8,
    y_start: u16,
    y_end: u16,
) -> Seq<BusEvent> {
    command_string_events(
        spec_opcode(Command::SetRamXAddressStartEndPosition),
        seq![x_start, x_end],
    ) + command_string_events(
        spec_opcode(Command::SetRamYAddressStartEndPosition),
        seq![
            spec_low_byte(y_start),
            spec_high_byte(y_start),
            spec_low_byte(y_end),
            spec_high_byte(y_end),
        ],
    ) + command_string_events(spec_opcode(Command::SetRamXAddressCounter), seq![x_start])
        + command_string_events(
        spec_opcode(Command::SetRamYAddressCounter),
        seq![spec_low_byte(y_start), spec_high_byte(y_start)],
    )
}

/// The traffic of streaming an image into RAM: one `WriteRam` command frame
/// whose payload is the whole buffer.
pub open spec fn image_write_events(img: Seq<u8>) -> Seq<BusEvent> {
    command_string_events(spec_opcode(Command::WriteRam), img)
}

impl<H: Transport> Screen<H> {
    /// Programs the controller's addressing window and write counters.
    /// `x_start` and `x_end` are in byte units; `y_start` and `y_end` are in
    /// pixel units. Fails with `BoundsError`, before anything is sent,
    /// exactly when the window exceeds the panel; the driver never reorders
    /// an inverted window for the caller.
    pub fn set_display_area(
        &mut self,
        x_start: u8,
        x_end: u8,
        y_start: u16,
        y_end: u16,
    ) -> (r: Result<(), ScreenError<H::Error>>)
        requires
            old(self).wf(),
        ensures
            same_panel(*old(self), *final(self)),
            (r matches Err(e) && e is BoundsError) <==> out_of_bounds(
                old(self).width(),
                old(self).height(),
                x_start,
                x_end,
                y_start,
                y_end,
            ),
            !(r matches Err(e) && e is LengthError),
            out_of_bounds(old(self).width(), old(self).height(), x_start, x_end, y_start, y_end)
                ==> final(self).events() == old(self).events(),
            r is Ok ==> final(self).events() == old(self).events() + display_area_events(
                x_start,
                x_end,
                y_start,
                y_end,
            ),
            (r matches Err(e) && e is SpiError) ==> stopped_short(
                final(self).events(),
                old(self).events(),
                sent_bytes(display_area_events(x_start, x_end, y_start, y_end)),
            ),
    {
        let x_size = width_pixels_to_bytes(self.x_size);
        if x_start > x_size || x_end > x_size || y_start > self.y_size || y_end > self.y_size {
            return Err(ScreenError::BoundsError);
        }
        let (ys_lo, ys_hi) = split_high_low(y_start);
        let (ye_lo, ye_hi) = split_high_low(y_end);
        let ghost p1: Seq<u8> = seq![x_start, x_end];
        let ghost p2: Seq<u8> = seq![
            spec_low_byte(y_start),
            spec_high_byte(y_start),
            spec_low_byte(y_end),
            spec_high_byte(y_end),
        ];
        let ghost p3: Seq<u8> = seq![x_start];
        let ghost p4: Seq<u8> = seq![spec_low_byte(y_start), spec_high_byte(y_start)];
        let ghost f1 = command_string_events(
            spec_opcode(Command::SetRamXAddressStartEndPosition),
            p1,
        );
        let ghost f2 = command_string_events(
            spec_opcode(Command::SetRamYAddressStartEndPosition),
            p2,
        );
        let ghost f3 = command_string_events(spec_opcode(Command::SetRamXAddressCounter), p3);
        let ghost f4 = command_string_events(spec_opcode(Command::SetRamYAddressCounter), p4);
        let ghost total = sent_bytes(display_area_events(x_start, x_end, y_start, y_end));
        proof {
            lemma_command_string_bytes(spec_opcode(Command::SetRamXAddressStartEndPosition), p1);
            lemma_command_string_bytes(spec_opcode(Command::SetRamYAddressStartEndPosition), p2);
            lemma_command_string_bytes(spec_opcode(Command::SetRamXAddressCounter), p3);
            lemma_command_string_bytes(spec_opcode(Command::SetRamYAddressCounter), p4);
            lemma_sent_bytes_concat(f1, f2);
            lemma_sent_bytes_concat(f1 + f2, f3);
            lemma_sent_bytes_concat((f1 + f2) + f3, f4);
        }
        let xw: [u8; 2] = [x_start, x_end];
        proof {
            assert(xw@ =~= p1);
        }
        if let Err(e) = self.write_cmd_string(
            Command::SetRamXAddressStartEndPosition,
            xw.as_slice(),
        ) {
            proof {
                lemma_stopped_short_extend(
                    self.events(),
                    old(self).events(),
                    seq![spec_opcode(Command::SetRamXAddressStartEndPosition)] + p1,
                    sent_bytes(f2) + sent_bytes(f3) + sent_bytes(f4),
                );
                assert((seq![spec_opcode(Command::SetRamXAddressStartEndPosition)] + p1) + (
                sent_bytes(f2) + sent_bytes(f3) + sent_bytes(f4)) =~= total);
            }
            return Err(ScreenError::SpiError(e));
        }
        let ghost mid1 = self.events();
        let yw: [u8; 4] = [ys_lo, ys_hi, ye_lo, ye_hi];
        proof {
            assert(yw@ =~= p2);
        }
        if let Err(e) = self.write_cmd_string(
            Command::SetRamYAddressStartEndPosition,
            yw.as_slice(),
        ) {
            proof {
                assert(total =~= sent_bytes(f1) + (seq![
                    spec_opcode(Command::SetRamYAddressStartEndPosition),
                ] + p2) + (sent_bytes(f3) + sent_bytes(f4)));
                lemma_stopped_short_lift(
                    old(self).events(),
                    mid1,
                    self.events(),
                    f1,
                    seq![spec_opcode(Command::SetRamYAddressStartEndPosition)] + p2,
                    sent_bytes(f3) + sent_bytes(f4),
                    total,
                );
            }
            return Err(ScreenError::SpiError(e));
        }
        let ghost mid2 = self.events();
        let xc: [u8; 1] = [x_start];
        proof {
            assert(xc@ =~= p3);
            assert(mid2 =~= old(self).events() + (f1 + f2));
        }
        if let Err(e) = self.write_cmd_string(Command::SetRamXAddressCounter, xc.as_slice()) {
            proof {
                lemma_sent_bytes_concat(f1, f2);
                assert(total =~= sent_bytes(f1 + f2) + (seq![
                    spec_opcode(Command::SetRamXAddressCounter),
                ] + p3) + sent_bytes(f4));
                lemma_stopped_short_lift(
                    old(self).events(),
                    old(self).events() + (f1 + f2),
                    self.events(),
                    f1 + f2,
                    seq![spec_opcode(Command::SetRamXAddressCounter)] + p3,
                    sent_bytes(f4),
                    total,
                );
            }
            return Err(ScreenError::SpiError(e));
        }
        let ghost mid3 = self.events();
        let yc: [u8; 2] = [ys_lo, ys_hi];
        proof {
            assert(yc@ =~= p4);
            assert(mid3 =~= old(self).events() + ((f1 + f2) + f3));
        }
        if let Err(e) = self.write_cmd_string(Command::SetRamYAddressCounter, yc.as_slice()) {
            proof {
                lemma_sent_bytes_concat(f1 + f2, f3);
                assert(total =~= sent_bytes((f1 + f2) + f3) + (seq![
                    spec_opcode(Command::SetRamYAddressCounter),
                ] + p4) + Seq::<u8>::empty());
                lemma_stopped_short_lift(
                    old(self).events(),
                    old(self).events() + ((f1 + f2) + f3),
                    self.events(),
                    (f1 + f2) + f3,
                    seq![spec_opcode(Command::SetRamYAddressCounter)] + p4,
                    Seq::empty(),
                    total,
                );
            }
            return Err(ScreenError::SpiError(e));
        }
        proof {
            assert(self.hw.events() =~= old(self).events() + display_area_events(
                x_start,
                x_end,
                y_start,
                y_end,
            ));
        }
        Ok(())
    }

    /// Streams a pre-packed one-bit-per-pixel buffer into the controller's
    /// RAM through the addressing window programmed before: waits for the
    /// busy line to clear, then sends one `WriteRam` frame with every buffer
    /// byte as data. No length validation happens here; the wrappers that
    /// declare a rectangle check the length first.
    #[verifier::loop_isolation(false)]
    pub fn load_image(&mut self, image: &[u8]) -> (r: Result<(), H::Error>)
        ensures
            same_panel(*old(self), *final(self)),
            r is Ok ==> final(self).events() == old(self).events() + image_write_events(image@),
            r is Err ==> exists|n: int|
                -1 <= n < image@.len() && final(self).events() == old(self).events()
                    + aborted_command_string_events(spec_opcode(Command::WriteRam), image@, n),
            r is Err ==> stopped_short(
                final(self).events(),
                old(self).events(),
                seq![spec_opcode(Command::WriteRam)] + image@,
            ),
    {
        let mut busy = self.hw.poll_busy();
        while busy
            invariant
                self.hw.events() == old(self).events(),
                same_panel(*old(self), *self),
            decreases self.hw.busy_polls() + (if busy {
                1int
            } else {
                0int
            }),
        {
            busy = self.hw.poll_busy();
        }
        self.write_cmd_string(Command::WriteRam, image)
    }
}


/// The X window end of a partial load declared by start and size, both in
/// byte units.
pub open spec fn partial_x_end(x_start: u8, x_size: u8) -> u8 {
    (x_start + x_size - 1) as u8
}

/// The Y window end of a partial load declared by start and size, both in
/// pixel units. The controller's Y axis is addressed top to bottom
/// descending in this profile's entry mode, so the end lies below the
/// start.
pub open spec fn partial_y_end(y_start: u16, y_size: u16) -> u16 {
    (y_start - (y_size - 1)) as u16
}

/// The traffic of a partial image load: program the window, then stream
/// the buffer.
pub open spec fn partial_load_events(
    x_start: u8,
    x_end: u8,
    y_start: u16,
    y_end: u16,
    img: Seq<u8>,
) -> Seq<BusEvent> {
    display_area_events(x_start, x_end, y_start, y_end) + image_write_events(img)
}

/// The traffic of the canonical full-refresh recipe: load the full-update
/// waveform table, power on, open a window covering the whole panel,
/// stream the buffer, trigger the full update, power off.
pub open spec fn full_show_events(width: u16, height: u16, lut: Seq<u8>, img: Seq<u8>) -> Seq<
    BusEvent,
> {
    lut_write_events(lut) + power_on_events() + display_area_events(
        0,
        (spec_byte_width(width) - 1) as u8,
        (height - 1) as u16,
        0,
    ) + image_write_events(img) + update_full_events() + power_off_events()
}

impl<H: Transport> Screen<H> {
    /// Loads a rectangle declared by start and size into RAM. `x_start` and
    /// `x_size` are in bytes; `y_start` and `y_size` are in pixels, with
    /// the window running down from `y_start`. Fails with `LengthError`,
    /// before anything is sent, exactly when the buffer is not
    /// `x_size * y_size` bytes; fails with `BoundsError` when the derived
    /// window exceeds the panel.
    pub fn load_partial_image(
        &mut self,
        x_start: u8,
        x_size: u8,
        y_start: u16,
        y_size: u16,
        image: &[u8],
    ) -> (r: Result<(), ScreenError<H::Error>>)
        requires
            old(self).wf(),
            1 <= x_start + x_size <= 255,
            1 <= y_size <= y_start + 1,
        ensures
            same_panel(*old(self), *final(self)),
            (r matches Err(e) && e is LengthError) <==> x_size * y_size != image@.len(),
            x_size * y_size != image@.len() ==> final(self).events() == old(self).events(),
            (r matches Err(e) && e is BoundsError) <==> (x_size * y_size == image@.len()
                && out_of_bounds(
                old(self).width(),
                old(self).height(),
                x_start,
                partial_x_end(x_start, x_size),
                y_start,
                partial_y_end(y_start, y_size),
            )),
            (r matches Err(e) && e is BoundsError) ==> final(self).events() == old(self).events(),
            r is Ok ==> final(self).events() == old(self).events() + partial_load_events(
                x_start,
                partial_x_end(x_start, x_size),
                y_start,
                partial_y_end(y_start, y_size),
                image@,
            ),
            (r matches Err(e) && e is SpiError) ==> stopped_short(
                final(self).events(),
                old(self).events(),
                sent_bytes(
                    partial_load_events(
                        x_start,
                        partial_x_end(x_start, x_size),
                        y_start,
                        partial_y_end(y_start, y_size),
                        image@,
                    ),
                ),
            ),
    {
        proof {
            assert((x_size as usize) * (y_size as usize) <= 255 * 65535) by (nonlinear_arith)
                requires
                    x_size <= 255,
                    y_size <= 65535,
            ;
        }
        if (x_size as usize) * (y_size as usize) != image.len() {
            return Err(ScreenError::LengthError);
        }
        let x_end = (x_start + x_size) - 1;
        let y_end = y_start - (y_size - 1);
        let ghost e_area = display_area_events(x_start, x_end, y_start, y_end);
        let ghost e_img = image_write_events(image@);
        let ghost total = sent_bytes(
            partial_load_events(
                x_start,
                partial_x_end(x_start, x_size),
                y_start,
                partial_y_end(y_start, y_size),
                image@,
            ),
        );
        proof {
            lemma_sent_bytes_concat(e_area, e_img);
            lemma_command_string_bytes(spec_opcode(Command::WriteRam), image@);
        }
        if let Err(e) = self.set_display_area(x_start, x_end, y_start, y_end) {
            proof {
                if e is SpiError {
                    lemma_stopped_short_extend(
                        self.events(),
                        old(self).events(),
                        sent_bytes(e_area),
                        sent_bytes(e_img),
                    );
                }
            }
            return Err(e);
        }
        if let Err(e) = self.load_image(image) {
            proof {
                assert(total =~= sent_bytes(e_area) + (seq![spec_opcode(Command::WriteRam)]
                    + image@) + Seq::<u8>::empty());
                lemma_stopped_short_lift(
                    old(self).events(),
                    old(self).events() + e_area,
                    self.events(),
                    e_area,
                    seq![spec_opcode(Command::WriteRam)] + image@,
                    Seq::empty(),
                    total,
                );
            }
            return Err(ScreenError::SpiError(e));
        }
        proof {
            assert(self.hw.events() =~= old(self).events() + partial_load_events(
                x_start,
                partial_x_end(x_start, x_size),
                y_start,
                partial_y_end(y_start, y_size),
                image@,
            ));
        }
        Ok(())
    }

    /// Paints the whole panel with a full refresh: the one place the
    /// power-and-update state machine is closed end to end. Fails with
    /// `LengthError`, before anything is sent, exactly when the buffer is
    /// not byte-width times height bytes; a window over the whole panel can
    /// never be out of bounds.
    pub fn show_full_screen_image(&mut self, image: &[u8]) -> (r: Result<
        (),
        ScreenError<H::Error>,
    >)
        requires
            old(self).wf(),
        ensures
            same_panel(*old(self), *final(self)),
            (r matches Err(e) && e is LengthError) <==> image@.len() != spec_byte_width(
                old(self).width(),
            ) * old(self).height(),
            image@.len() != spec_byte_width(old(self).width()) * old(self).height() ==> final(self).events() == old(self).events(),
            !(r matches Err(e) && e is BoundsError),
            r is Ok ==> final(self).events() == old(self).events() + full_show_events(
                old(self).width(),
                old(self).height(),
                old(self).full_lut(),
                image@,
            ),
            (r matches Err(e) && e is SpiError) ==> stopped_short(
                final(self).events(),
                old(self).events(),
                sent_bytes(
                    full_show_events(
                        old(self).width(),
                        old(self).height(),
                        old(self).full_lut(),
                        image@,
                    ),
                ),
            ),
    {
        let x_size = width_pixels_to_bytes(self.x_size);
        let y_size = self.y_size;
        proof {
            assert((old(self).width() + 7) / 8 >= 1);
            assert((x_size as usize) * (y_size as usize) <= 255 * 65535) by (nonlinear_arith)
                requires
                    x_size <= 255,
                    y_size <= 65535,
            ;
        }
        if (x_size as usize) * (y_size as usize) != image.len() {
            return Err(ScreenError::LengthError);
        }
        let ghost lut = old(self).full_lut();
        let ghost e1 = lut_write_events(lut);
        let ghost e2 = power_on_events();
        let ghost e3 = display_area_events(
            0,
            (spec_byte_width(old(self).width()) - 1) as u8,
            (old(self).height() - 1) as u16,
            0,
        );
        let ghost e4 = image_write_events(image@);
        let ghost e5 = update_full_events();
        let ghost e6 = power_off_events();
        let ghost total = sent_bytes(
            full_show_events(old(self).width(), old(self).height(), lut, image@),
        );
        proof {
            lemma_sent_bytes_concat(e1, e2);
            lemma_sent_bytes_concat(e1 + e2, e3);
            lemma_sent_bytes_concat((e1 + e2) + e3, e4);
            lemma_sent_bytes_concat(((e1 + e2) + e3) + e4, e5);
            lemma_sent_bytes_concat((((e1 + e2) + e3) + e4) + e5, e6);
            lemma_command_string_bytes(spec_opcode(Command::WriteLutRegister), lut);
            lemma_command_string_bytes(spec_opcode(Command::WriteRam), image@);
        }
        if let Err(e) = self.load_full_update_lut() {
            proof {
                lemma_stopped_short_extend(
                    self.events(),
                    old(self).events(),
                    seq![spec_opcode(Command::WriteLutRegister)] + lut,
                    sent_bytes(e2) + sent_bytes(e3) + sent_bytes(e4) + sent_bytes(e5)
                        + sent_bytes(e6),
                );
                assert((seq![spec_opcode(Command::WriteLutRegister)] + lut) + (sent_bytes(e2)
                    + sent_bytes(e3) + sent_bytes(e4) + sent_bytes(e5) + sent_bytes(e6))
                    =~= total);
            }
            return Err(ScreenError::SpiError(e));
        }
        if let Err(e) = self.power_on() {
            proof {
                assert(total =~= sent_bytes(e1) + sent_bytes(e2) + (sent_bytes(e3) + sent_bytes(
                    e4,
                ) + sent_bytes(e5) + sent_bytes(e6)));
                lemma_stopped_short_lift(
                    old(self).events(),
                    old(self).events() + e1,
                    self.events(),
                    e1,
                    sent_bytes(e2),
                    sent_bytes(e3) + sent_bytes(e4) + sent_bytes(e5) + sent_bytes(e6),
                    total,
                );
            }
            return Err(ScreenError::SpiError(e));
        }
        let ghost mid2 = self.events();
        if let Err(e) = self.set_display_area(0, x_size - 1, y_size - 1, 0) {
            proof {
                assert(mid2 =~= old(self).events() + (e1 + e2));
                if e is SpiError {
                    lemma_sent_bytes_concat(e1, e2);
                    assert(total =~= sent_bytes(e1 + e2) + sent_bytes(e3) + (sent_bytes(e4)
                        + sent_bytes(e5) + sent_bytes(e6)));
                    lemma_stopped_short_lift(
                        old(self).events(),
                        old(self).events() + (e1 + e2),
                        self.events(),
                        e1 + e2,
                        sent_bytes(e3),
                        sent_bytes(e4) + sent_bytes(e5) + sent_bytes(e6),
                        total,
                    );
                }
            }
            return Err(e);
        }
        let ghost mid3 = self.events();
        if let Err(e) = self.load_image(image) {
            proof {
                assert(mid3 =~= old(self).events() + ((e1 + e2) + e3));
                lemma_sent_bytes_concat(e1 + e2, e3);
                assert(total =~= sent_bytes((e1 + e2) + e3) + (seq![
                    spec_opcode(Command::WriteRam),
                ] + image@) + (sent_bytes(e5) + sent_bytes(e6)));
                lemma_stopped_short_lift(
                    old(self).events(),
                    old(self).events() + ((e1 + e2) + e3),
                    self.events(),
                    (e1 + e2) + e3,
                    seq![spec_opcode(Command::WriteRam)] + image@,
                    sent_bytes(e5) + sent_bytes(e6),
                    total,
                );
            }
            return Err(ScreenError::SpiError(e));
        }
        let ghost mid4 = self.events();
        if let Err(e) = self.update_full() {
            proof {
                assert(mid4 =~= old(self).events() + (((e1 + e2) + e3) + e4));
                lemma_sent_bytes_concat((e1 + e2) + e3, e4);
                assert(total =~= sent_bytes(((e1 + e2) + e3) + e4) + sent_bytes(e5)
                    + sent_bytes(e6));
                lemma_stopped_short_lift(
                    old(self).events(),
                    old(self).events() + (((e1 + e2) + e3) + e4),
                    self.events(),
                    ((e1 + e2) + e3) + e4,
                    sent_bytes(e5),
                    sent_bytes(e6),
                    total,
                );
            }
            return Err(ScreenError::SpiError(e));
        }
        let ghost mid5 = self.events();
        if let Err(e) = self.power_off() {
            proof {
                assert(mid5 =~= old(self).events() + ((((e1 + e2) + e3) + e4) + e5));
                lemma_sent_bytes_concat(((e1 + e2) + e3) + e4, e5);
                assert(total =~= sent_bytes((((e1 + e2) + e3) + e4) + e5) + sent_bytes(e6)
                    + Seq::<u8>::empty());
                lemma_stopped_short_lift(
                    old(self).events(),
                    old(self).events() + ((((e1 + e2) + e3) + e4) + e5),
                    self.events(),
                    (((e1 + e2) + e3) + e4) + e5,
                    sent_bytes(e6),
                    Seq::empty(),
                    total,
                );
            }
            return Err(ScreenError::SpiError(e));
        }
        proof {
            assert(self.hw.events() =~= old(self).events() + full_show_events(
                old(self).width(),
                old(self).height(),
                lut,
                image@,
            ));
        }
        Ok(())
    }
}


/// The traffic of constructing the driver: idle line levels with the
/// controller held in reset, two conservative ten-millisecond holds around
/// releasing reset, then the one-time panel configuration in the
/// order the controller requires: gate count, soft-start timing, VCOM,
/// dummy-line period, gate-line width, entry mode.
pub open spec fn init_events(builder: ScreenBuilder) -> Seq<BusEvent> {
    seq![
        BusEvent::Reset(false),
        BusEvent::ChipSelect(true),
        BusEvent::DataCommand(true),
        BusEvent::Delay(10),
        BusEvent::Reset(true),
        BusEvent::Delay(10),
    ] + command_string_events(
        spec_opcode(Command::DriverOutputControl),
        seq![
            spec_low_byte((builder.y_size - 1) as u16),
            spec_ninth_bit((builder.y_size - 1) as u16),
            0x00,
        ],
    ) + command_string_events(
        spec_opcode(Command::BoosterSoftStartControl),
        builder.soft_start@,
    ) + command_string_events(spec_opcode(Command::WriteVcomRegister), seq![builder.vcom])
        + command_string_events(
        spec_opcode(Command::SetDummyLinePeriod),
        seq![builder.dummy_line],
    ) + command_string_events(spec_opcode(Command::SetGateLineWidth), seq![builder.gate_line])
        + command_string_events(
        spec_opcode(Command::DataEntryModeSetting),
        seq![spec_entry_mode_bits(builder.entry_mode)],
    )
}

impl<H: Transport> Screen<H> {
    fn new(hw: H, builder: ScreenBuilder) -> (r: Result<Screen<H>, H::Error>)
        requires
            builder.wf(),
        ensures
            r matches Ok(s) ==> s.wf() && s.width() == builder.x_size && s.height()
                == builder.y_size && s.full_lut() == builder.lut_full@ && s.partial_lut()
                == builder.lut_part@ && s.events() == hw.events() + init_events(builder),
    {
        let mut screen = Screen {
            hw,
            x_size: builder.x_size,
            y_size: builder.y_size,
            lut_full: builder.lut_full,
            lut_part: builder.lut_part,
        };

        screen.hw.set_reset(false);
        screen.hw.set_chip_select(true);
        screen.hw.set_data_command(true);

        screen.hw.delay_ms(10);
        screen.hw.set_reset(true);
        screen.hw.delay_ms(10);

        let gates = screen.y_size - 1;
        let split = split_high_low(gates);
        let p_gate: [u8; 3] = [split.0, ninth_bit(gates), 0x00];
        proof {
            assert(p_gate@ =~= seq![
                spec_low_byte((builder.y_size - 1) as u16),
                spec_ninth_bit((builder.y_size - 1) as u16),
                0x00,
            ]);
        }
        if let Err(e) = screen.write_cmd_string(Command::DriverOutputControl, p_gate.as_slice()) {
            return Err(e);
        }
        if let Err(e) = screen.write_cmd_string(
            Command::BoosterSoftStartControl,
            builder.soft_start.as_slice(),
        ) {
            return Err(e);
        }
        let p_vcom: [u8; 1] = [builder.vcom];
        proof {
            assert(p_vcom@ =~= seq![builder.vcom]);
        }
        if let Err(e) = screen.write_cmd_string(Command::WriteVcomRegister, p_vcom.as_slice()) {
            return Err(e);
        }
        let p_dummy: [u8; 1] = [builder.dummy_line];
        proof {
            assert(p_dummy@ =~= seq![builder.dummy_line]);
        }
        if let Err(e) = screen.write_cmd_string(Command::SetDummyLinePeriod, p_dummy.as_slice()) {
            return Err(e);
        }
        let p_gate_line: [u8; 1] = [builder.gate_line];
        proof {
            assert(p_gate_line@ =~= seq![builder.gate_line]);
        }
        if let Err(e) = screen.write_cmd_string(Command::SetGateLineWidth, p_gate_line.as_slice())
        {
            return Err(e);
        }
        let p_entry: [u8; 1] = [entry_mode_bits(builder.entry_mode)];
        proof {
            assert(p_entry@ =~= seq![spec_entry_mode_bits(builder.entry_mode)]);
        }
        if let Err(e) = screen.write_cmd_string(Command::DataEntryModeSetting, p_entry.as_slice())
        {
            return Err(e);
        }
        proof {
            assert(screen.hw.events() =~= hw.events() + init_events(builder));
        }
        Ok(screen)
    }
}

impl ScreenBuilder {
    /// Builds the driver from this profile and the transport: performs the
    /// hardware reset and the one-time panel configuration. A transport
    /// failure anywhere in the sequence aborts construction and surfaces
    /// that error unchanged; no partial driver is returned.
    pub fn new_screen<H: Transport>(self, hw: H) -> (r: Result<Screen<H>, H::Error>)
        requires
            self.wf(),
        ensures
            r matches Ok(s) ==> s.wf() && s.width() == self.x_size && s.height() == self.y_size
                && s.full_lut() == self.lut_full@ && s.partial_lut() == self.lut_part@
                && s.events() == hw.events() + init_events(self),
    {
        Screen::new(hw, self)
    }
}


impl<ERR> core::convert::From<ERR> for ScreenError<ERR> {
    /// Wraps a transport error unchanged.
    fn from(err: ERR) -> Self {
        ScreenError::SpiError(err)
    }
}

impl<ERR> vstd::std_specs::convert::FromSpecImpl<ERR> for ScreenError<ERR> {
    open spec fn obeys_from_spec() -> bool {
        true
    }

    open spec fn from_spec(t: ERR) -> Self {
        ScreenError::SpiError(t)
    }
}

} // verus!






