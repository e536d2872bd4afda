//! Screen and window pixel capture, modelled over an abstract platform
//! graphics adapter.
//!
//! The capture pipeline (rectangle resolution, method selection, cropping,
//! resource acquisition and release, pixel readback and channel-order
//! normalization) is verified here against the contracts of the
//! [`adapter::GraphicsAdapter`] trait. A fully verified in-memory adapter,
//! [`synthetic::SyntheticAdapter`], serves as a test double; a real platform
//! adapter lives outside the verified library.

pub mod adapter;
pub mod capture;
pub mod geom;
pub mod pixel;
pub mod synthetic;
pub mod utils;
