//! A cooperative, round-robin green-thread scheduler.
//!
//! The crate verifies the machine-independent heart of a stackful green-thread
//! runtime: the fixed pool of execution contexts with their lifecycle state
//! machine, the circular round-robin selection of the next runnable context,
//! the spawn path that claims the first free slot, and the arithmetic that
//! lays out the bootstrap frame on a fresh task stack. The register-level
//! switch itself and the raw stack buffers are architecture- and
//! `unsafe`-bound, so the scheduler hands its caller explicit switch actions
//! and frame addresses to carry out instead of performing them.

pub mod context;
pub mod driver;
pub mod runtime;
pub mod stack;
