//! A single GPU compute run, modelled and verified: the diagnostic message
//! filter, the choice of layer, device and queue family, the buffer's
//! initial content, the word-wise kernel, the dumps of the buffer, and the
//! order of the run's steps with its fail-fast policy.
pub mod diagnostics;
pub mod kernel;
pub mod readback;
pub mod selection;
pub mod sequence;
