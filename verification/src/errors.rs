use vstd::prelude::*;

verus! {

/// The error taxonomy of the core.
///
/// `ExecutionFault` is an unrecoverable semantic error raised inside a step;
/// it halts the core until the host resets it. `OutOfBounds` rejects a
/// framebuffer write outside the declared dimensions. `ConfigError` rejects an
/// invalid configuration before any state is created.
#[derive(Debug, PartialEq, Eq)]
pub enum CoreError {
    ExecutionFault(String),
    OutOfBounds,
    ConfigError,
}

} // verus!
