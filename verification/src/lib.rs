//! A deterministic, resumable frame-stepped execution core for an emulator
//! shell to drive: a scheduler that turns per-frame cycle budgets into a
//! bounded run of execution-unit steps, a double-buffered framebuffer that the
//! host only ever sees between frames, and an input latch sampled once per
//! frame. The host shell (windowing, rendering, input polling) lives outside
//! this crate and talks to the core through plain values.

pub mod errors;
pub mod framebuffer;
pub mod input;
pub mod execution;
pub mod scripted;
pub mod scheduler;

pub use crate::errors::CoreError;
pub use crate::framebuffer::Framebuffer;
pub use crate::framebuffer::PixelWrite;
pub use crate::input::InputLatch;
pub use crate::execution::ExecutionUnit;
pub use crate::execution::StepOutcome;
pub use crate::scripted::Op;
pub use crate::scripted::ScriptedUnit;
pub use crate::scheduler::Config;
pub use crate::scheduler::Core;
pub use crate::scheduler::FrameResult;
pub use crate::scheduler::init;
