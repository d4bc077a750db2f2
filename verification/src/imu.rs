//! The decisions of the attitude estimator: what to do with each packet
//! that the inertial sensor's driver hands over.
//!
//! The caller owns the driver and the arithmetic on the samples. It tells
//! the estimator what kind of packet arrived and does what the estimator
//! answers.

use vstd::prelude::*;

verus! {

/// Interval between two reports of one kind, in milliseconds.
pub const REPORT_INTERVAL_MS: u16 = 16;

/// Longest time the sensor may hold a report back to batch it with others,
/// in milliseconds: one less than the interval.
pub const REPORT_BATCH_MS: u16 = 15;

/// What the driver handed over.
#[derive(Clone, Copy, Debug, PartialEq, Eq, Structural)]
pub enum ImuEvent {
    /// The sensor has finished a reset.
    ResetComplete,
    /// A message on the command channel that is not known.
    UnknownCommand,
    /// A fused orientation sample.
    Rotation,
    /// A calibrated angular-rate sample.
    GyroCalibrated,
    /// A sensor report of any other kind.
    UnknownReport,
    /// A packet of any other kind.
    UnknownPacket,
    /// The driver had no data yet.
    NoData,
    /// The driver failed in any other way.
    DriverFault,
}

/// What the caller does about it.
#[derive(Clone, Copy, Debug, PartialEq, Eq, Structural)]
pub enum ImuAction {
    /// Switch on the orientation and the angular-rate reports, each with
    /// the given interval and batching time.
    EnableReports { interval_ms: u16, batch_ms: u16 },
    /// Keep this orientation sample as the zero reference; publish nothing.
    CaptureReference,
    /// Publish roll and pitch from this orientation sample, as they are or,
    /// where `relative` is set, less the zero reference.
    PublishAttitude { relative: bool },
    /// Publish the yaw rate from this sample's vertical axis.
    PublishYawRate,
    /// Write the event to the log and go on.
    Log,
    /// Go on.
    Nothing,
}

/// The estimator's state: whether roll and pitch are reported against a
/// zero reference, and whether that reference has been taken.
#[derive(Clone, Copy, Debug, PartialEq, Eq, Structural)]
pub struct AttitudeEstimator {
    pub zero_reference: bool,
    pub captured: bool,
}

/// The action for an event in a given state.
pub open spec fn action_for(estimator: AttitudeEstimator, event: ImuEvent) -> ImuAction {
    match event {
        ImuEvent::ResetComplete => ImuAction::EnableReports {
            interval_ms: REPORT_INTERVAL_MS,
            batch_ms: REPORT_BATCH_MS,
        },
        ImuEvent::Rotation => if estimator.zero_reference && !estimator.captured {
            ImuAction::CaptureReference
        } else {
            ImuAction::PublishAttitude { relative: estimator.zero_reference }
        },
        ImuEvent::GyroCalibrated => ImuAction::PublishYawRate,
        ImuEvent::UnknownReport => ImuAction::Log,
        ImuEvent::UnknownPacket => ImuAction::Log,
        ImuEvent::DriverFault => ImuAction::Log,
        ImuEvent::UnknownCommand => ImuAction::Nothing,
        ImuEvent::NoData => ImuAction::Nothing,
    }
}

/// The state after an event: the first orientation sample sets the
/// reference where one is wanted, nothing else changes anything.
pub open spec fn state_after(estimator: AttitudeEstimator, event: ImuEvent) -> AttitudeEstimator {
    AttitudeEstimator {
        zero_reference: estimator.zero_reference,
        captured: estimator.captured || (estimator.zero_reference && event == ImuEvent::Rotation),
    }
}

/// The state after a run of events, taken in order.
pub open spec fn state_after_all(estimator: AttitudeEstimator, events: Seq<ImuEvent>) -> AttitudeEstimator
    decreases events.len(),
{
    if events.len() == 0 {
        estimator
    } else {
        state_after(state_after_all(estimator, events.drop_last()), events.last())
    }
}

impl AttitudeEstimator {
    /// An estimator that has taken no reference yet.
    pub fn new(zero_reference: bool) -> (estimator: Self)
        ensures
            estimator == (AttitudeEstimator { zero_reference, captured: false }),
    {
        AttitudeEstimator { zero_reference, captured: false }
    }

    /// Takes one event and says what to do about it.
    pub fn on_event(&mut self, event: ImuEvent) -> (action: ImuAction)
        ensures
            action == action_for(*old(self), event),
            *final(self) == state_after(*old(self), event),
    {
        match event {
            ImuEvent::ResetComplete => ImuAction::EnableReports {
                interval_ms: REPORT_INTERVAL_MS,
                batch_ms: REPORT_BATCH_MS,
            },
            ImuEvent::Rotation => {
                if self.zero_reference && !self.captured {
                    self.captured = true;
                    ImuAction::CaptureReference
                } else {
                    ImuAction::PublishAttitude { relative: self.zero_reference }
                }
            },
            ImuEvent::GyroCalibrated => ImuAction::PublishYawRate,
            ImuEvent::UnknownReport | ImuEvent::UnknownPacket | ImuEvent::DriverFault => {
                ImuAction::Log
            },
            ImuEvent::UnknownCommand | ImuEvent::NoData => ImuAction::Nothing,
        }
    }
}

/// The zero reference is taken at most once: from the first orientation
/// sample on, no later event makes the estimator take another.
pub proof fn lemma_reference_taken_once(estimator: AttitudeEstimator, events: Seq<ImuEvent>, event: ImuEvent)
    requires
        estimator.captured,
    ensures
        state_after_all(estimator, events) == estimator,
        action_for(state_after_all(estimator, events), event) != ImuAction::CaptureReference,
    decreases events.len(),
{
    if events.len() > 0 {
        lemma_reference_taken_once(estimator, events.drop_last(), events.last());
    }
}

/// Roll and pitch are published relative to a reference only after the
/// reference has been taken.
pub proof fn lemma_relative_needs_reference(estimator: AttitudeEstimator, event: ImuEvent)
    ensures
        action_for(estimator, event) == (ImuAction::PublishAttitude { relative: true })
            ==> estimator.captured,
{
}

} // verus!
