//! The capability interface the driver needs from its embedding environment,
//! and the ghost model of the traffic that flows through it.

use vstd::prelude::*;

verus! {

/// One observable action on the panel's control lines and serial bus,
/// oldest first in a history.
#[derive(Clone, Copy, Debug, PartialEq, Eq, Structural)]
pub enum BusEvent {
    /// Chip-select line level: `false` selects the controller, `true` idles it.
    ChipSelect(bool),
    /// Data/command select line level: `false` marks command bytes,
    /// `true` marks data bytes.
    DataCommand(bool),
    /// Reset line level: `false` holds the controller in reset,
    /// `true` lets it run.
    Reset(bool),
    /// A pause of the given number of milliseconds.
    Delay(u16),
    /// One blocking full-duplex byte exchange; the byte received in return
    /// carries no meaning and is discarded.
    Transfer(u8),
}

/// The transport adapter: a full-duplex byte channel, three digital outputs
/// (data/command select, chip select, reset), one digital input (busy), and
/// a millisecond delay service, owned as one bundle.
///
/// The ghost history [`Transport::events`] records every action in order, and
/// every driver operation's contract is stated over it. The ghost counter
/// [`Transport::busy_polls`] models the busy line as the number of times it
/// will still read high; a controller that never clears its busy line does
/// not satisfy this model (the protocol itself puts no bound on the busy
/// duration, and the driver would spin on such a part forever).
///
/// An implementation outside this crate is trusted to meet these contracts;
/// the in-crate [`crate::recorder::Recorder`] is verified against them.
pub trait Transport: Sized {
    /// The transport's own error type, wrapped and passed through unchanged
    /// by the driver, never inspected.
    type Error;

    /// Everything sent over the lines so far, oldest first. An
    /// implementation in this crate overrides this with its real history;
    /// one outside Verus inherits this empty default, and what the driver
    /// proves over the history is then trusted of it.
    open spec fn events(&self) -> Seq<BusEvent> {
        Seq::empty()
    }

    /// How many times the busy line will still read high. Overridden like
    /// [`Transport::events`].
    open spec fn busy_polls(&self) -> nat {
        0
    }

    /// Drive the chip-select line to `level`.
    fn set_chip_select(&mut self, level: bool)
        ensures
            final(self).events() == old(self).events().push(BusEvent::ChipSelect(level)),
            final(self).busy_polls() == old(self).busy_polls(),
    ;

    /// Drive the data/command select line to `level`.
    fn set_data_command(&mut self, level: bool)
        ensures
            final(self).events() == old(self).events().push(BusEvent::DataCommand(level)),
            final(self).busy_polls() == old(self).busy_polls(),
    ;

    /// Drive the reset line to `level`.
    fn set_reset(&mut self, level: bool)
        ensures
            final(self).events() == old(self).events().push(BusEvent::Reset(level)),
            final(self).busy_polls() == old(self).busy_polls(),
    ;

    /// Block for at least `ms` milliseconds.
    fn delay_ms(&mut self, ms: u16)
        ensures
            final(self).events() == old(self).events().push(BusEvent::Delay(ms)),
            final(self).busy_polls() == old(self).busy_polls(),
    ;

    /// Read the busy line once: `true` while the controller is still
    /// processing. A successful read consumes one remaining high reading.
    fn poll_busy(&mut self) -> (busy: bool)
        ensures
            final(self).events() == old(self).events(),
            busy == (old(self).busy_polls() > 0),
            final(self).busy_polls() == if old(self).busy_polls() > 0 {
                (old(self).busy_polls() - 1) as nat
            } else {
                0
            },
    ;

    /// Exchange one byte on the serial channel, blocking until done. On
    /// failure nothing was sent; the controller may afterwards raise or
    /// clear its busy line at any time, so no more is promised of it.
    fn exchange(&mut self, byte: u8) -> (r: Result<u8, Self::Error>)
        ensures
            r is Ok ==> final(self).events() == old(self).events().push(BusEvent::Transfer(byte)),
            r is Err ==> final(self).events() == old(self).events(),
    ;
}

/// The payload bytes of a transfer, as bus events.
pub open spec fn transfer_events(payload: Seq<u8>) -> Seq<BusEvent> {
    payload.map_values(|b: u8| BusEvent::Transfer(b))
}

/// The traffic of one parameterless command: select the chip, mark a command
/// byte, send the opcode, and idle the chip again.
pub open spec fn command_events(op: u8) -> Seq<BusEvent> {
    seq![
        BusEvent::ChipSelect(false),
        BusEvent::DataCommand(false),
        BusEvent::Transfer(op),
        BusEvent::ChipSelect(true),
    ]
}

/// The traffic of one lone data byte: select the chip, mark a data byte,
/// send it, and idle the chip again.
pub open spec fn data_events(byte: u8) -> Seq<BusEvent> {
    seq![
        BusEvent::ChipSelect(false),
        BusEvent::DataCommand(true),
        BusEvent::Transfer(byte),
        BusEvent::ChipSelect(true),
    ]
}

/// The traffic of one command with a parameter string: the opcode as a
/// command byte, then every payload byte as data, all under one chip-select
/// assertion.
pub open spec fn command_string_events(op: u8, payload: Seq<u8>) -> Seq<BusEvent> {
    seq![
        BusEvent::ChipSelect(false),
        BusEvent::DataCommand(false),
        BusEvent::Transfer(op),
        BusEvent::DataCommand(true),
    ] + transfer_events(payload) + seq![BusEvent::ChipSelect(true)]
}

/// The traffic of a command transfer that the transport cut short, with the
/// chip-select line restored on the way out. `n` is where it stopped:
/// `-1` when the opcode byte itself never went out, otherwise the count of
/// payload bytes that were still sent.
pub open spec fn aborted_command_string_events(op: u8, payload: Seq<u8>, n: int) -> Seq<BusEvent> {
    if n < 0 {
        seq![
            BusEvent::ChipSelect(false),
            BusEvent::DataCommand(false),
            BusEvent::ChipSelect(true),
        ]
    } else {
        seq![
            BusEvent::ChipSelect(false),
            BusEvent::DataCommand(false),
            BusEvent::Transfer(op),
            BusEvent::DataCommand(true),
        ] + transfer_events(payload.take(n)) + seq![BusEvent::ChipSelect(true)]
    }
}

/// The traffic of a parameterless command whose opcode never went out.
pub open spec fn aborted_command_events() -> Seq<BusEvent> {
    seq![
        BusEvent::ChipSelect(false),
        BusEvent::DataCommand(false),
        BusEvent::ChipSelect(true),
    ]
}

/// The traffic of a lone data byte that never went out.
pub open spec fn aborted_data_events() -> Seq<BusEvent> {
    seq![
        BusEvent::ChipSelect(false),
        BusEvent::DataCommand(true),
        BusEvent::ChipSelect(true),
    ]
}

/// The bytes that actually crossed the serial channel in a stretch of
/// traffic, in order, with the line toggles and pauses left out.
pub open spec fn sent_bytes(events: Seq<BusEvent>) -> Seq<u8>
    decreases events.len(),
{
    if events.len() == 0 {
        Seq::empty()
    } else {
        let rest = sent_bytes(events.drop_last());
        match events.last() {
            BusEvent::Transfer(b) => rest.push(b),
            _ => rest,
        }
    }
}

/// `new` continues `old` with the bytes of `intended`, but stopped short:
/// everything sent agrees with the intent and at least one byte is missing.
pub open spec fn stopped_short(new: Seq<BusEvent>, old: Seq<BusEvent>, intended: Seq<u8>) -> bool {
    &&& sent_bytes(new).is_prefix_of(sent_bytes(old) + intended)
    &&& sent_bytes(new).len() < sent_bytes(old).len() + intended.len()
}

/// The bytes of concatenated traffic are the concatenated bytes.
pub proof fn lemma_sent_bytes_concat(a: Seq<BusEvent>, b: Seq<BusEvent>)
    ensures
        sent_bytes(a + b) == sent_bytes(a) + sent_bytes(b),
    decreases b.len(),
{
    if b.len() == 0 {
        assert(a + b =~= a);
        assert(sent_bytes(a) + sent_bytes(b) =~= sent_bytes(a));
    } else {
        lemma_sent_bytes_concat(a, b.drop_last());
        assert((a + b).drop_last() =~= a + b.drop_last());
        assert((a + b).last() == b.last());
        match b.last() {
            BusEvent::Transfer(byte) => {
                assert(sent_bytes(a) + sent_bytes(b) =~= (sent_bytes(a) + sent_bytes(
                    b.drop_last(),
                )).push(byte));
            },
            _ => {},
        }
    }
}

/// Payload transfers carry exactly the payload bytes.
pub proof fn lemma_transfer_events_bytes(payload: Seq<u8>)
    ensures
        sent_bytes(transfer_events(payload)) == payload,
    decreases payload.len(),
{
    if payload.len() == 0 {
        assert(sent_bytes(transfer_events(payload)) =~= payload);
    } else {
        lemma_transfer_events_bytes(payload.drop_last());
        assert(transfer_events(payload).drop_last() =~= transfer_events(payload.drop_last()));
        assert(sent_bytes(transfer_events(payload)) =~= payload);
    }
}

/// A full command-string frame carries the opcode and then the payload.
pub proof fn lemma_command_string_bytes(op: u8, payload: Seq<u8>)
    ensures
        sent_bytes(command_string_events(op, payload)) == seq![op] + payload,
{
    reveal_with_fuel(sent_bytes, 6);
    let head = seq![
        BusEvent::ChipSelect(false),
        BusEvent::DataCommand(false),
        BusEvent::Transfer(op),
        BusEvent::DataCommand(true),
    ];
    let tail = seq![BusEvent::ChipSelect(true)];
    lemma_sent_bytes_concat(head + transfer_events(payload), tail);
    lemma_sent_bytes_concat(head, transfer_events(payload));
    lemma_transfer_events_bytes(payload);
    assert(sent_bytes(head) =~= seq![op]);
    assert(sent_bytes(tail) =~= Seq::<u8>::empty());
    assert(sent_bytes(command_string_events(op, payload)) =~= seq![op] + payload);
}

/// A bare command frame carries exactly the opcode.
pub proof fn lemma_command_bytes(op: u8)
    ensures
        sent_bytes(command_events(op)) == seq![op],
{
    reveal_with_fuel(sent_bytes, 6);
    assert(sent_bytes(command_events(op)) =~= seq![op]);
}

/// An aborted command-string frame carries a strict prefix of the intended
/// opcode-and-payload bytes.
pub proof fn lemma_aborted_command_string_bytes(op: u8, payload: Seq<u8>, n: int)
    requires
        -1 <= n < payload.len(),
    ensures
        sent_bytes(aborted_command_string_events(op, payload, n)) == (seq![op] + payload).take(
            if n < 0 {
                0
            } else {
                n + 1
            },
        ),
{
    reveal_with_fuel(sent_bytes, 6);
    if n < 0 {
        assert(sent_bytes(aborted_command_string_events(op, payload, n)) =~= (seq![op]
            + payload).take(0));
    } else {
        lemma_command_string_bytes(op, payload.take(n));
        assert(aborted_command_string_events(op, payload, n) =~= command_string_events(
            op,
            payload.take(n),
        ));
        assert(seq![op] + payload.take(n) =~= (seq![op] + payload).take(n + 1));
    }
}

/// An aborted parameterless frame carries nothing.
pub proof fn lemma_aborted_command_bytes()
    ensures
        sent_bytes(aborted_command_events()) == Seq::<u8>::empty(),
        sent_bytes(aborted_data_events()) == Seq::<u8>::empty(),
{
    reveal_with_fuel(sent_bytes, 6);
    assert(sent_bytes(aborted_command_events()) =~= Seq::<u8>::empty());
    assert(sent_bytes(aborted_data_events()) =~= Seq::<u8>::empty());
}

/// A prefix of a sequence is still a prefix after the sequence grows.
pub proof fn lemma_prefix_extends<T>(p: Seq<T>, a: Seq<T>, b: Seq<T>)
    requires
        p.is_prefix_of(a),
    ensures
        p.is_prefix_of(a + b),
{
    assert(p =~= (a + b).subrange(0, p.len() as int));
}

/// Growing a common front keeps a prefix a prefix.
pub proof fn lemma_prefix_under_concat<T>(a: Seq<T>, p: Seq<T>, b: Seq<T>)
    requires
        p.is_prefix_of(b),
    ensures
        (a + p).is_prefix_of(a + b),
{
    assert(a + p =~= (a + b).subrange(0, (a + p).len() as int));
}


/// A transfer that stopped short of `sub` also stopped short of any longer
/// intent that begins with `sub`.
pub proof fn lemma_stopped_short_extend(
    new_e: Seq<BusEvent>,
    old_e: Seq<BusEvent>,
    sub: Seq<u8>,
    rest: Seq<u8>,
)
    requires
        stopped_short(new_e, old_e, sub),
    ensures
        stopped_short(new_e, old_e, sub + rest),
{
    lemma_prefix_extends(sent_bytes(new_e), sent_bytes(old_e) + sub, rest);
    assert(sent_bytes(old_e) + (sub + rest) =~= (sent_bytes(old_e) + sub) + rest);
}

/// An operation whose earlier steps completed (`prior`) and whose current
/// step stopped short of `sub` stopped short of the whole intent
/// `sent_bytes(prior) + sub + rest`.
pub proof fn lemma_stopped_short_lift(
    old_e: Seq<BusEvent>,
    mid_e: Seq<BusEvent>,
    new_e: Seq<BusEvent>,
    prior: Seq<BusEvent>,
    sub: Seq<u8>,
    rest: Seq<u8>,
    intended: Seq<u8>,
)
    requires
        mid_e == old_e + prior,
        stopped_short(new_e, mid_e, sub),
        intended == sent_bytes(prior) + sub + rest,
    ensures
        stopped_short(new_e, old_e, intended),
{
    lemma_sent_bytes_concat(old_e, prior);
    lemma_prefix_extends(sent_bytes(new_e), sent_bytes(mid_e) + sub, rest);
    assert(sent_bytes(old_e) + intended =~= (sent_bytes(mid_e) + sub) + rest);
}

} // verus!

