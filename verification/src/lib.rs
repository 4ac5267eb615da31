//! A platform-independent core for synthesizing and observing mouse input.
//!
//! The heart of the crate is the [`common::MouseActions`] capability trait:
//! the contract every backend must satisfy for moving the pointer, pressing
//! buttons, scrolling, and registering system-wide event callbacks. Composite
//! operations (relative move, click, delayed click) are free functions built
//! from the trait's primitives, so each backend only supplies the primitives.
//!
//! The [`emulated::Mouse`] backend is a verified in-memory implementation of
//! the capability trait: it tracks the pointer against a virtual screen and
//! delivers every synthesized event to the registered callbacks, which makes
//! it suitable for automation tests and as a reference for OS backends.

pub mod common;
pub mod emulated;
pub mod error;
pub mod laws;
pub mod registry;

pub use emulated::Mouse;
