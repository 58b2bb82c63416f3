//! An executor for the endpoints of a middleware node: one readiness cycle
//! at a time, the loops that repeat it, and the reference accounting of the
//! wake token that a driven future is polled with.

pub mod cycle;
pub mod drive;
pub mod entity;
pub mod error;
pub mod executor;
pub mod middleware;
pub mod spin;
pub mod waker;

pub use cycle::{Cycle, CycleAction, CycleEvent};
pub use drive::{spin_until_future_complete, Drive, DriveAction, DriveEvent, DriveState};
pub use entity::{Entity, EntityKind, LiveEntities, ReadyEntities, WaitSetCapacity};
pub use error::{RclReturnCode, Severity};
pub use executor::spin_once;
pub use middleware::Middleware;
pub use spin::{spin, SpinAction, SpinEvent, SpinState};
pub use waker::{TokenEffect, TokenOp, WakeToken};
