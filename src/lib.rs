//! Screen-driven ambient lighting for Adalight light strips: colours are taken
//! from regions of captured frames, gamma-corrected and framed into packets
//! for the strip's serial controller.
pub mod adalight;
pub mod ambient;
pub mod error;
pub mod gamma;
pub mod modes;
pub mod sampler;

pub use adalight::{encode, Adalight, Packet};
pub use ambient::{CaptureSession, Phase};
pub use error::GlowError;
pub use gamma::{Channel, GammaMap};
pub use modes::{Mode, RotatingGradient, StaticGradient};
pub use sampler::{sample, Algorithm, Frame, Region};
