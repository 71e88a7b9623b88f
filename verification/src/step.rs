//! The atomic operations of a command script, and why planning one can
//! fail.
//!
//! The planner turns each command token into an ordered script of steps.
//! The unverified executor performs the steps strictly in order, completing
//! each before the next begins; a failing router acknowledgement aborts the
//! remainder of the script.

use vstd::prelude::*;

verus! {

/// One atomic operation of a command script, in executor terms:
///
/// * a router command is one write followed by reading its single reply
///   line, which must be the acknowledgement `G1:OK`;
/// * a pump command drains the pump port, writes one program line, gives
///   the pump a moment to start, and then polls its status until it reports
///   idle;
/// * an availability wait polls the pump's status until it reports idle,
///   without writing any command.
#[derive(Debug, Clone, PartialEq, Eq)]
pub enum Step {
    /// Discard whatever input is queued on the router port.
    FlushRouter,
    /// Discard whatever input is queued on the pump port.
    FlushPump,
    /// Poll the pump's status until it reports idle; writes no command.
    AwaitPump,
    /// Write one command line to the router and require its acknowledgement.
    RouterCommand { text: String },
    /// Write one program line to the pump bus and wait until the pump is
    /// idle again.
    PumpCommand { text: String },
    /// Block the controller thread for this many milliseconds.
    WaitMs { milliseconds: u64 },
    /// Record that the dispensing slot now holds this many microliters.
    SetOccupancy { microliters: u64 },
    /// Log a warning that a computed plunger position exceeds the pump's
    /// 12000-unit stroke.
    WarnPumpUnits,
    /// Log a warning that the command kind is accepted but unimplemented.
    WarnUnimplemented,
}

/// The mathematical shape of a step, with command text as a character
/// sequence.
pub enum StepModel {
    FlushRouter,
    FlushPump,
    AwaitPump,
    RouterCommand { text: Seq<char> },
    PumpCommand { text: Seq<char> },
    WaitMs { milliseconds: u64 },
    SetOccupancy { microliters: u64 },
    WarnPumpUnits,
    WarnUnimplemented,
}

impl View for Step {
    type V = StepModel;

    open spec fn view(&self) -> StepModel {
        match self {
            Step::FlushRouter => StepModel::FlushRouter,
            Step::FlushPump => StepModel::FlushPump,
            Step::AwaitPump => StepModel::AwaitPump,
            Step::RouterCommand { text } => StepModel::RouterCommand { text: text@ },
            Step::PumpCommand { text } => StepModel::PumpCommand { text: text@ },
            Step::WaitMs { milliseconds } => StepModel::WaitMs { milliseconds: *milliseconds },
            Step::SetOccupancy { microliters } => StepModel::SetOccupancy {
                microliters: *microliters,
            },
            Step::WarnPumpUnits => StepModel::WarnPumpUnits,
            Step::WarnUnimplemented => StepModel::WarnUnimplemented,
        }
    }
}

/// The views of a step script.
pub open spec fn steps_view(steps: Seq<Step>) -> Seq<StepModel> {
    steps.map_values(|s: Step| s@)
}

/// Why a command token cannot be planned. Any of these aborts the rest of
/// the batch; the next message is accepted afterwards.
#[derive(Clone, Copy, Debug, PartialEq, Eq, Structural)]
pub enum PlanError {
    /// The token's command kind is none of the known kinds.
    UnknownCommand,
    /// A liquid application token has no slot field.
    MissingSlot,
    /// The slot field does not parse as an unsigned decimal number.
    BadSlotNumber,
    /// A liquid application token has no volume field.
    MissingVolume,
    /// The volume field does not parse as an unsigned decimal number, or
    /// its plunger position cannot be represented.
    BadVolume,
    /// A slot above 33 is none of the known external sources.
    UnknownExternalSlot,
    /// The coordinate table has no entry for the slot.
    UnknownSlot,
    /// The slot's coordinate text does not split into three fields.
    BadCoordinates,
    /// A wait token has no duration field.
    MissingDuration,
    /// The duration field does not parse as milliseconds.
    BadDuration,
}

impl PlanError {
    /// The description that the error log carries.
    pub open spec fn spec_message(&self) -> Seq<char> {
        match self {
            PlanError::UnknownCommand => "unknown command"@,
            PlanError::MissingSlot => "cannot deduce the source slot"@,
            PlanError::BadSlotNumber => "the slot field is not a number"@,
            PlanError::MissingVolume => "cannot deduce the volume"@,
            PlanError::BadVolume => "the volume field is not a usable number"@,
            PlanError::UnknownExternalSlot => "no aspirate channel for this external slot"@,
            PlanError::UnknownSlot => "no coordinates for this slot"@,
            PlanError::BadCoordinates => "the slot's coordinates are malformed"@,
            PlanError::MissingDuration => "cannot deduce the wait duration"@,
            PlanError::BadDuration => "the wait duration is not a number"@,
        }
    }

    /// A short description for the error log.
    pub fn message(&self) -> (r: &'static str)
        ensures
            r@ == self.spec_message(),
    {
        match self {
            PlanError::UnknownCommand => "unknown command",
            PlanError::MissingSlot => "cannot deduce the source slot",
            PlanError::BadSlotNumber => "the slot field is not a number",
            PlanError::MissingVolume => "cannot deduce the volume",
            PlanError::BadVolume => "the volume field is not a usable number",
            PlanError::UnknownExternalSlot => "no aspirate channel for this external slot",
            PlanError::UnknownSlot => "no coordinates for this slot",
            PlanError::BadCoordinates => "the slot's coordinates are malformed",
            PlanError::MissingDuration => "cannot deduce the wait duration",
            PlanError::BadDuration => "the wait duration is not a number",
        }
    }
}

/// A planning failure, with the position of the failing token in the batch.
#[derive(Clone, Copy, Debug, PartialEq, Eq, Structural)]
pub struct BatchError {
    /// Position of the failing token within the message's data.
    pub token_index: usize,
    /// Why that token cannot be planned.
    pub error: PlanError,
}

} // verus!
