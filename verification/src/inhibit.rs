//! The inhibit controller: the read and write protocol against the
//! one-byte `inhibited` attribute of a single device.
//!
//! The controller does no I/O. A [`Transaction`] names the next [`Step`] that
//! its driver must perform on the attribute file, and the driver reports back
//! what happened as an [`Event`]. [`apply_to_attribute`] drives a transaction
//! against a byte in memory.

use vstd::prelude::*;
use crate::error::InhibitError;

verus! {

/// The attribute byte of a device that is active: ASCII `'0'`.
pub const ACTIVE_BYTE: u8 = 0x30;

/// The attribute byte of a device that is inhibited: ASCII `'1'`.
pub const INHIBITED_BYTE: u8 = 0x31;

/// What a mutating command does to the device it selected.
#[derive(Clone, Copy, Debug, PartialEq, Eq, Structural)]
pub enum InhibitAction {
    /// Make the device active, whatever it was.
    Enable,
    /// Inhibit the device, whatever it was.
    Disable,
    /// Flip the device between active and inhibited.
    Toggle,
}

/// The two states that the attribute can validly hold.
#[derive(Clone, Copy, Debug, PartialEq, Eq, Structural)]
pub enum InhibitState {
    /// Input events are delivered; the attribute reads `'0'`.
    Active,
    /// Input events are suppressed; the attribute reads `'1'`.
    Inhibited,
}

impl InhibitState {
    /// The state that an attribute byte stands for, if it stands for one.
    pub open spec fn spec_from_byte(byte: u8) -> Option<InhibitState> {
        if byte == ACTIVE_BYTE {
            Some(InhibitState::Active)
        } else if byte == INHIBITED_BYTE {
            Some(InhibitState::Inhibited)
        } else {
            None
        }
    }

    /// The attribute byte that stands for this state.
    pub open spec fn spec_to_byte(self) -> u8 {
        match self {
            InhibitState::Active => ACTIVE_BYTE,
            InhibitState::Inhibited => INHIBITED_BYTE,
        }
    }

    /// The other state.
    pub open spec fn spec_toggled(self) -> InhibitState {
        match self {
            InhibitState::Active => InhibitState::Inhibited,
            InhibitState::Inhibited => InhibitState::Active,
        }
    }

    /// Interprets a byte read from the attribute. Only `'0'` and `'1'` stand
    /// for a state.
    #[verifier::when_used_as_spec(spec_from_byte)]
    pub fn from_byte(byte: u8) -> (state: Option<InhibitState>)
        ensures
            state == Self::spec_from_byte(byte),
    {
        if byte == ACTIVE_BYTE {
            Some(InhibitState::Active)
        } else if byte == INHIBITED_BYTE {
            Some(InhibitState::Inhibited)
        } else {
            None
        }
    }

    /// The byte to write so that the attribute holds this state.
    #[verifier::when_used_as_spec(spec_to_byte)]
    pub fn to_byte(self) -> (byte: u8)
        ensures
            byte == self.spec_to_byte(),
    {
        match self {
            InhibitState::Active => ACTIVE_BYTE,
            InhibitState::Inhibited => INHIBITED_BYTE,
        }
    }

    /// The state that a toggle leads to from this one.
    #[verifier::when_used_as_spec(spec_toggled)]
    pub fn toggled(self) -> (state: InhibitState)
        ensures
            state == self.spec_toggled(),
    {
        match self {
            InhibitState::Active => InhibitState::Inhibited,
            InhibitState::Inhibited => InhibitState::Active,
        }
    }
}

impl InhibitAction {
    /// Whether the action has to read the attribute before it writes. Only a
    /// toggle depends on the current state.
    pub open spec fn spec_reads_first(self) -> bool {
        self == InhibitAction::Toggle
    }

    /// Whether the attribute file has to be opened for reading as well as for
    /// writing.
    #[verifier::when_used_as_spec(spec_reads_first)]
    pub fn reads_first(self) -> (reads: bool)
        ensures
            reads == self.spec_reads_first(),
    {
        match self {
            InhibitAction::Toggle => true,
            _ => false,
        }
    }
}

/// What the driver of a transaction has to do next.
#[derive(Clone, Copy, Debug, PartialEq, Eq, Structural)]
pub enum Step {
    /// Open the attribute file with these access modes.
    Open { read: bool, write: bool },
    /// Read exactly one byte from the open file.
    Read,
    /// Write this one byte to the open file, in place of the byte it holds.
    Write(u8),
    /// Nothing more: the action has been carried out.
    Done,
    /// Nothing more: the action failed with this error.
    Fail(InhibitError),
}

/// What happened when the driver performed the pending step.
#[derive(Clone, Copy, Debug, PartialEq, Eq, Structural)]
pub enum Event {
    /// The file was opened.
    Opened,
    /// One byte was read, and this is it.
    ByteRead(u8),
    /// The byte was written.
    Written,
    /// The step could not be performed: the file did not open, the read came
    /// up short or failed, or the write failed.
    Failed,
}

impl Step {
    /// Whether the transaction is over.
    pub open spec fn spec_is_final(self) -> bool {
        self is Done || self is Fail
    }

    /// An upper bound on the number of events that can still change the step.
    pub open spec fn remaining(self) -> nat {
        match self {
            Step::Open { .. } => 3,
            Step::Read => 2,
            Step::Write(_) => 1,
            Step::Done => 0,
            Step::Fail(_) => 0,
        }
    }

    /// Whether the transaction is over, with or without success.
    #[verifier::when_used_as_spec(spec_is_final)]
    pub fn is_final(self) -> (done: bool)
        ensures
            done == self.spec_is_final(),
    {
        match self {
            Step::Done => true,
            Step::Fail(_) => true,
            _ => false,
        }
    }
}

/// The first step of an action: open the attribute file for writing, and for
/// reading too when the action reads first.
pub open spec fn first_step(action: InhibitAction) -> Step {
    Step::Open { read: action.spec_reads_first(), write: true }
}

/// The step that follows `pending` once the driver reports `event`.
///
/// A finished transaction stays as it is. An event that does not answer the
/// pending step, `Failed` among them, ends the transaction with
/// `OperationFailed`. A byte that is neither `'0'` nor `'1'` ends a toggle
/// with `InvalidState`, so that no write follows an unrecognised reading.
pub open spec fn next_step(action: InhibitAction, pending: Step, event: Event) -> Step {
    match (pending, event) {
        (Step::Done, _) => Step::Done,
        (Step::Fail(error), _) => Step::Fail(error),
        (Step::Open { .. }, Event::Opened) => match action {
            InhibitAction::Enable => Step::Write(ACTIVE_BYTE),
            InhibitAction::Disable => Step::Write(INHIBITED_BYTE),
            InhibitAction::Toggle => Step::Read,
        },
        (Step::Read, Event::ByteRead(byte)) => match InhibitState::spec_from_byte(byte) {
            Some(state) => Step::Write(state.spec_toggled().spec_to_byte()),
            None => Step::Fail(InhibitError::InvalidState),
        },
        (Step::Write(_), Event::Written) => Step::Done,
        _ => Step::Fail(InhibitError::OperationFailed),
    }
}

/// Whether `step` can be pending in a transaction of `action`.
pub open spec fn step_fits(action: InhibitAction, step: Step) -> bool {
    match step {
        Step::Open { read, write } => write && read == action.spec_reads_first(),
        Step::Read => action == InhibitAction::Toggle,
        Step::Write(byte) => match action {
            InhibitAction::Enable => byte == ACTIVE_BYTE,
            InhibitAction::Disable => byte == INHIBITED_BYTE,
            InhibitAction::Toggle => byte == ACTIVE_BYTE || byte == INHIBITED_BYTE,
        },
        Step::Done => true,
        Step::Fail(error) => error == InhibitError::OperationFailed || (error
            == InhibitError::InvalidState && action == InhibitAction::Toggle),
    }
}

/// The step that is pending after the driver has reported `events`, one after
/// the other, starting from `pending`.
pub open spec fn step_after(action: InhibitAction, pending: Step, events: Seq<Event>) -> Step
    decreases events.len(),
{
    if events.len() == 0 {
        pending
    } else {
        next_step(action, step_after(action, pending, events.drop_last()), events.last())
    }
}

/// One run of an action against the attribute of one device.
///
/// The pending step always fits the action: an enable never reads and writes
/// nothing but `'0'`, a disable never reads and writes nothing but `'1'`, and
/// a toggle writes nothing but `'0'` or `'1'`.
#[derive(Debug, PartialEq, Eq)]
pub struct Transaction {
    action: InhibitAction,
    pending: Step,
}

impl Transaction {
    #[verifier::type_invariant]
    spec fn fits(self) -> bool {
        step_fits(self.action, self.pending)
    }

    /// The action that this transaction carries out.
    pub closed spec fn spec_action(&self) -> InhibitAction {
        self.action
    }

    /// The step that the driver has to perform next.
    pub closed spec fn spec_pending(&self) -> Step {
        self.pending
    }

    /// Starts a transaction: the first thing to do is to open the attribute
    /// file.
    pub fn begin(action: InhibitAction) -> (transaction: Transaction)
        ensures
            transaction.spec_action() == action,
            transaction.spec_pending() == first_step(action),
    {
        Transaction { action, pending: Step::Open { read: action.reads_first(), write: true } }
    }

    /// The action that this transaction carries out.
    #[verifier::when_used_as_spec(spec_action)]
    pub fn action(&self) -> (action: InhibitAction)
        ensures
            action == self.spec_action(),
    {
        self.action
    }

    /// The step that the driver has to perform next. It fits the action.
    #[verifier::when_used_as_spec(spec_pending)]
    pub fn pending(&self) -> (step: Step)
        ensures
            step == self.spec_pending(),
            step_fits(self.spec_action(), step),
    {
        proof {
            use_type_invariant(self);
        }
        self.pending
    }

    /// Takes in what happened to the pending step and moves on to the next
    /// one, which is returned. Every event brings a transaction that is not
    /// over closer to its end.
    pub fn advance(&mut self, event: Event) -> (step: Step)
        ensures
            final(self).spec_action() == old(self).spec_action(),
            final(self).spec_pending() == next_step(
                old(self).spec_action(),
                old(self).spec_pending(),
                event,
            ),
            step == final(self).spec_pending(),
            step_fits(final(self).spec_action(), step),
            old(self).spec_pending().spec_is_final() || step.remaining() < old(
                self,
            ).spec_pending().remaining(),
    {
        proof {
            use_type_invariant(&*self);
        }
        let next = match (self.pending, event) {
            (Step::Done, _) => Step::Done,
            (Step::Fail(error), _) => Step::Fail(error),
            (Step::Open { .. }, Event::Opened) => match self.action {
                InhibitAction::Enable => Step::Write(ACTIVE_BYTE),
                InhibitAction::Disable => Step::Write(INHIBITED_BYTE),
                InhibitAction::Toggle => Step::Read,
            },
            (Step::Read, Event::ByteRead(byte)) => match InhibitState::from_byte(byte) {
                Some(state) => Step::Write(state.toggled().to_byte()),
                None => Step::Fail(InhibitError::InvalidState),
            },
            (Step::Write(_), Event::Written) => Step::Done,
            _ => Step::Fail(InhibitError::OperationFailed),
        };
        self.pending = next;
        next
    }
}

/// What an action does to an attribute that holds `byte`, when every step on
/// the file succeeds: the result of the action and the byte that the attribute
/// holds afterwards.
pub open spec fn effect(action: InhibitAction, byte: u8) -> (Result<(), InhibitError>, u8) {
    match action {
        InhibitAction::Enable => (Ok(()), ACTIVE_BYTE),
        InhibitAction::Disable => (Ok(()), INHIBITED_BYTE),
        InhibitAction::Toggle => match InhibitState::spec_from_byte(byte) {
            Some(state) => (Ok(()), state.spec_toggled().spec_to_byte()),
            None => (Err(InhibitError::InvalidState), byte),
        },
    }
}

/// Carries out `action` on an attribute held in memory, by driving a
/// [`Transaction`] to its end: the file always opens, a read yields the byte,
/// and a write replaces it.
pub fn apply_to_attribute(action: InhibitAction, attribute: &mut u8) -> (result: Result<
    (),
    InhibitError,
>)
    ensures
        result == effect(action, *old(attribute)).0,
        *final(attribute) == effect(action, *old(attribute)).1,
{
    let ghost initial = *attribute;
    let mut transaction = Transaction::begin(action);
    loop
        invariant
            initial == *old(attribute),
            transaction.spec_action() == action,
            match transaction.spec_pending() {
                Step::Open { .. } => *attribute == initial,
                Step::Read => *attribute == initial,
                Step::Write(byte) => *attribute == initial && effect(action, initial) == (
                    Ok::<(), InhibitError>(()),
                    byte,
                ),
                Step::Done => effect(action, initial) == (Ok::<(), InhibitError>(()), *attribute),
                Step::Fail(error) => effect(action, initial) == (
                    Err::<(), InhibitError>(error),
                    *attribute,
                ),
            },
        decreases transaction.spec_pending().remaining(),
    {
        let event = match transaction.pending() {
            Step::Open { .. } => Event::Opened,
            Step::Read => Event::ByteRead(*attribute),
            Step::Write(byte) => {
                *attribute = byte;
                Event::Written
            },
            Step::Done => {
                return Ok(());
            },
            Step::Fail(error) => {
                return Err(error);
            },
        };
        transaction.advance(event);
    }
}

/// Every step that a transaction reaches fits its action, whatever its driver
/// reports: an enable never reads and writes nothing but `'0'`, a disable
/// never reads and writes nothing but `'1'`, a toggle writes nothing but `'0'`
/// or `'1'`, and only a toggle fails with `InvalidState`.
pub proof fn lemma_reached_steps_fit(action: InhibitAction, events: Seq<Event>)
    ensures
        step_fits(action, step_after(action, first_step(action), events)),
    decreases events.len(),
{
    if events.len() > 0 {
        lemma_reached_steps_fit(action, events.drop_last());
    }
}

/// Each event brings a transaction closer to its end, which it reaches with
/// the third event at the latest: there is at most one read and one write.
pub proof fn lemma_finished_after_three_events(action: InhibitAction, events: Seq<Event>)
    ensures
        step_after(action, first_step(action), events).remaining() + events.len() <= 3
            || step_after(action, first_step(action), events).spec_is_final(),
        events.len() >= 3 ==> step_after(action, first_step(action), events).spec_is_final(),
    decreases events.len(),
{
    if events.len() > 0 {
        lemma_finished_after_three_events(action, events.drop_last());
    }
}

/// A toggle asks for a write only in answer to a reading of `'0'` or `'1'`,
/// and the byte it asks to write is the other of the two.
pub proof fn lemma_toggle_writes_only_after_a_valid_reading(events: Seq<Event>, byte: u8)
    requires
        step_after(InhibitAction::Toggle, first_step(InhibitAction::Toggle), events)
            == Step::Write(byte),
    ensures
        events.len() == 2,
        events[0] == Event::Opened,
        events[1] matches Event::ByteRead(reading) && InhibitState::spec_from_byte(reading)
            matches Some(state) && byte == state.spec_toggled().spec_to_byte(),
{
    let action = InhibitAction::Toggle;
    let opening = first_step(action);
    lemma_finished_after_three_events(action, events);
    assert(events.len() <= 2);
    if events.len() == 1 {
        assert(step_after(action, opening, events.drop_last()) == opening);
    } else if events.len() == 2 {
        let head = events.drop_last();
        assert(step_after(action, opening, head.drop_last()) == opening);
        assert(step_after(action, opening, head) == next_step(action, opening, events[0]));
    }
}

/// A toggle is an involution on the valid states: it turns an active device
/// into an inhibited one and an inhibited device into an active one, and a
/// second toggle brings back the byte that the first one found.
pub proof fn lemma_toggle_is_involution(byte: u8)
    requires
        InhibitState::spec_from_byte(byte) is Some,
    ensures
        effect(InhibitAction::Toggle, byte).0 is Ok,
        InhibitState::spec_from_byte(effect(InhibitAction::Toggle, byte).1) == Some(
            InhibitState::spec_from_byte(byte)->0.spec_toggled(),
        ),
        effect(InhibitAction::Toggle, ACTIVE_BYTE).1 == INHIBITED_BYTE,
        effect(InhibitAction::Toggle, INHIBITED_BYTE).1 == ACTIVE_BYTE,
        effect(InhibitAction::Toggle, effect(InhibitAction::Toggle, byte).1) == (
            Ok::<(), InhibitError>(()),
            byte,
        ),
{
}

/// A toggle that reads a byte other than `'0'` and `'1'` fails with
/// `InvalidState` and never asks for a write: whatever the driver reports
/// afterwards, the transaction stays failed, and the attribute keeps its byte.
pub proof fn lemma_invalid_reading_is_never_written(byte: u8, events: Seq<Event>)
    requires
        InhibitState::spec_from_byte(byte) is None,
    ensures
        next_step(InhibitAction::Toggle, Step::Read, Event::ByteRead(byte)) == Step::Fail(
            InhibitError::InvalidState,
        ),
        step_after(
            InhibitAction::Toggle,
            Step::Read,
            seq![Event::ByteRead(byte)] + events,
        ) == Step::Fail(InhibitError::InvalidState),
        effect(InhibitAction::Toggle, byte) == (
            Err::<(), InhibitError>(InhibitError::InvalidState),
            byte,
        ),
    decreases events.len(),
{
    let first = seq![Event::ByteRead(byte)];
    let all = first + events;
    if events.len() == 0 {
        assert(step_after(InhibitAction::Toggle, Step::Read, all.drop_last()) == Step::Read);
    } else {
        lemma_invalid_reading_is_never_written(byte, events.drop_last());
        assert(all.drop_last() =~= first + events.drop_last());
    }
}

/// Enabling is idempotent: it succeeds and leaves the attribute at `'0'`,
/// whatever byte it found, and so does enabling again.
pub proof fn lemma_enable_is_idempotent(byte: u8)
    ensures
        effect(InhibitAction::Enable, byte) == (Ok::<(), InhibitError>(()), ACTIVE_BYTE),
        effect(InhibitAction::Enable, effect(InhibitAction::Enable, byte).1) == effect(
            InhibitAction::Enable,
            byte,
        ),
{
}

/// Disabling is idempotent: it succeeds and leaves the attribute at `'1'`,
/// whatever byte it found, and so does disabling again.
pub proof fn lemma_disable_is_idempotent(byte: u8)
    ensures
        effect(InhibitAction::Disable, byte) == (Ok::<(), InhibitError>(()), INHIBITED_BYTE),
        effect(InhibitAction::Disable, effect(InhibitAction::Disable, byte).1) == effect(
            InhibitAction::Disable,
            byte,
        ),
{
}

} // verus!
