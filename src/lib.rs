//! Startup gate and supervisor for a program that runs beside a local
//! network proxy: the readiness and shutdown protocol, the duration syntax of
//! its options, and the decisions of the supervision flow.

pub mod decimal;
pub mod duration;
pub mod endpoint;
pub mod readiness;
pub mod supervisor;

pub use duration::{parse_duration, Duration, InvalidDuration};
