//! Escape-time fractal rasterisation: the integer core.
//!
//! The crate holds the parts of a multi-worker renderer that decide *what*
//! is drawn *where*: how a linear pixel index maps to a coordinate, how the
//! index range is split between workers, how an escape count becomes a
//! colour, and how the single consumer assembles the streamed results into
//! the output image and knows when it is complete.
//!
//! - [`geometry`]: image dimensions and the index-to-coordinate mapping.
//! - [`pixel`]: colours and pixel results.
//! - [`escape`]: the bounded escape counter and its colour.
//! - [`partition`]: one contiguous chunk of indices per worker.
//! - [`worker`]: a compute worker as a state machine.
//! - [`buffer`]: the output image.
//! - [`progress`]: progress reports of the consumer.
//! - [`assembler`]: the consumer of pixel results.
//! - [`pipeline`]: the finished image and its independence of arrival order.
//! - [`fault`]: fatal conditions and their exit codes.
//! - [`capability`]: the number of workers of a machine.
//! - [`input`]: reading the sides of the image from text.

pub mod assembler;
pub mod buffer;
pub mod capability;
pub mod escape;
pub mod fault;
pub mod geometry;
pub mod input;
pub mod partition;
pub mod pipeline;
pub mod pixel;
pub mod progress;
pub mod worker;
