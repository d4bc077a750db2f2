//! Integer core of a motion controller for a multi-thruster watercraft:
//! the pilot link's frame format and its resynchronising decoder, the depth
//! sounder's frame format with its hold-last-value policy, the decisions of
//! the attitude estimator and of the fixed-rate control cycle, and a small
//! buffer of cycle durations.
//!
//! Everything here works on bytes and integers. Quantities that the vehicle
//! handles as real numbers (angles, gains, thrust commands) are scaled by the
//! caller from the integers this crate hands out.

pub mod frame;
pub mod helpers;
pub mod imu;
pub mod receiver;
pub mod scheduler;
pub mod sonar;
