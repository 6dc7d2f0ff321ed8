//! The start-up handshake of the CS43L22 audio codec over its control bus.
//!
//! The handshake is a state machine: each call takes the outcome of the bus
//! transfer the previous action asked for and returns the next action. The
//! caller performs the transfers.
use vstd::prelude::*;

verus! {

/// Bus address of the codec.
pub const CS43L22_ADDRESS: u8 = 0x4A;

/// Register that holds the chip's identification.
pub const CHIP_ID_REGISTER: u8 = 0x01;

/// Identification a CS43L22 reports.
pub const CHIP_ID: u8 = 0xE3;

/// Register writes of the boot sequence.
pub const BOOT_WRITES: usize = 12;

/// Register and value of write `i` of the boot sequence: power down, the
/// required initialization writes, headphone output, power up, then volume.
pub open spec fn spec_boot_write(i: usize) -> (u8, u8) {
    match i {
        0 => (0x02, 0x01),
        1 => (0x00, 0x99),
        2 => (0x47, 0x80),
        3 => (0x32, 0x80),
        4 => (0x32, 0x00),
        5 => (0x00, 0x00),
        6 => (0x04, 0xAF),
        7 => (0x02, 0x9E),
        8 => (0x20, 0x90),
        9 => (0x21, 0x90),
        10 => (0x1A, 0x00),
        11 => (0x1B, 0x00),
        _ => (0x1B, 0x00),
    }
}

/// Register and value of write `i` of the boot sequence.
#[verifier::when_used_as_spec(spec_boot_write)]
pub fn boot_write(i: usize) -> (r: (u8, u8))
    ensures
        r == spec_boot_write(i),
{
    match i {
        0 => (0x02, 0x01),
        1 => (0x00, 0x99),
        2 => (0x47, 0x80),
        3 => (0x32, 0x80),
        4 => (0x32, 0x00),
        5 => (0x00, 0x00),
        6 => (0x04, 0xAF),
        7 => (0x02, 0x9E),
        8 => (0x20, 0x90),
        9 => (0x21, 0x90),
        10 => (0x1A, 0x00),
        11 => (0x1B, 0x00),
        _ => (0x1B, 0x00),
    }
}

/// Why the handshake stopped.
#[derive(Clone, Copy, Debug, PartialEq, Eq, Structural)]
pub enum CodecFault {
    /// The identification register was unreadable or held another value.
    WrongChipId,
    /// A register write was not acknowledged.
    BusError,
}

/// What the caller does next.
#[derive(Clone, Copy, Debug, PartialEq, Eq, Structural)]
pub enum CodecAction {
    /// Drive the reset line high.
    ReleaseReset,
    /// Read one byte from the register.
    ReadRegister(u8),
    /// Write the value to the register.
    WriteRegister(u8, u8),
    /// The codec is powered, unmuted and set up.
    Ready,
    /// The handshake failed.
    Failed(CodecFault),
}

/// The outcome of the previous action's bus transfer.
#[derive(Clone, Copy, Debug, PartialEq, Eq, Structural)]
pub enum BusOutcome {
    /// The transfer completed (or there was none to make).
    Done,
    /// The register read returned this byte.
    Read(u8),
    /// The bus reported an error.
    Failed,
}

/// How far the handshake has come.
#[derive(Clone, Copy, Debug, PartialEq, Eq, Structural)]
pub enum CodecState {
    /// Nothing done yet.
    Start,
    /// The reset line was released.
    ResetReleased,
    /// The identification register was asked for.
    Identifying,
    /// Write `i` of the boot sequence was issued.
    Writing(usize),
    Ready,
    Faulted(CodecFault),
}

/// The next state and action, given the outcome of the last action.
pub open spec fn transition(state: CodecState, outcome: BusOutcome) -> (CodecState, CodecAction) {
    match state {
        CodecState::Start => (CodecState::ResetReleased, CodecAction::ReleaseReset),
        CodecState::ResetReleased => (
            CodecState::Identifying,
            CodecAction::ReadRegister(CHIP_ID_REGISTER),
        ),
        CodecState::Identifying => if outcome == BusOutcome::Read(CHIP_ID) {
            (CodecState::Writing(0), CodecAction::WriteRegister(boot_write(0).0, boot_write(0).1))
        } else {
            (
                CodecState::Faulted(CodecFault::WrongChipId),
                CodecAction::Failed(CodecFault::WrongChipId),
            )
        },
        CodecState::Writing(i) => if outcome != BusOutcome::Done {
            (CodecState::Faulted(CodecFault::BusError), CodecAction::Failed(CodecFault::BusError))
        } else if i + 1 < BOOT_WRITES {
            (
                CodecState::Writing((i + 1) as usize),
                CodecAction::WriteRegister(
                    boot_write((i + 1) as usize).0,
                    boot_write((i + 1) as usize).1,
                ),
            )
        } else {
            (CodecState::Ready, CodecAction::Ready)
        },
        CodecState::Ready => (CodecState::Ready, CodecAction::Ready),
        CodecState::Faulted(fault) => (CodecState::Faulted(fault), CodecAction::Failed(fault)),
    }
}

/// The codec's start-up handshake.
pub struct CS43L22 {
    state: CodecState,
}

impl View for CS43L22 {
    type V = CodecState;

    closed spec fn view(&self) -> CodecState {
        self.state
    }
}

impl CS43L22 {
    /// Write indices stay within the boot sequence.
    pub open spec fn wf(&self) -> bool {
        self@ matches CodecState::Writing(i) ==> i < BOOT_WRITES
    }

    /// A handshake that has not started.
    pub fn new() -> (r: Self)
        ensures
            r.wf(),
            r@ == CodecState::Start,
    {
        CS43L22 { state: CodecState::Start }
    }

    /// Takes the outcome of the last action and returns the next one: release
    /// reset, read and check the identification, then the boot writes one by
    /// one, each once the previous was acknowledged.
    pub fn initialize(&mut self, outcome: BusOutcome) -> (r: CodecAction)
        requires
            old(self).wf(),
        ensures
            final(self).wf(),
            (final(self)@, r) == transition(old(self)@, outcome),
    {
        let (state, action) = match self.state {
            CodecState::Start => (CodecState::ResetReleased, CodecAction::ReleaseReset),
            CodecState::ResetReleased => (
                CodecState::Identifying,
                CodecAction::ReadRegister(CHIP_ID_REGISTER),
            ),
            CodecState::Identifying => match outcome {
                BusOutcome::Read(id) if id == CHIP_ID => {
                    let (register, value) = boot_write(0);
                    (CodecState::Writing(0), CodecAction::WriteRegister(register, value))
                },
                _ => (
                    CodecState::Faulted(CodecFault::WrongChipId),
                    CodecAction::Failed(CodecFault::WrongChipId),
                ),
            },
            CodecState::Writing(i) => match outcome {
                BusOutcome::Done => if i + 1 < BOOT_WRITES {
                    let (register, value) = boot_write(i + 1);
                    (CodecState::Writing(i + 1), CodecAction::WriteRegister(register, value))
                } else {
                    (CodecState::Ready, CodecAction::Ready)
                },
                _ => (
                    CodecState::Faulted(CodecFault::BusError),
                    CodecAction::Failed(CodecFault::BusError),
                ),
            },
            CodecState::Ready => (CodecState::Ready, CodecAction::Ready),
            CodecState::Faulted(fault) => (CodecState::Faulted(fault), CodecAction::Failed(fault)),
        };
        self.state = state;
        action
    }
}

} // verus!
