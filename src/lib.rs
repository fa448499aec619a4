//! Slow-scan television (SSTV) modulation: turns an RGB raster into the exact
//! sequence of audio tones that the Martin, Scottie and Robot modes prescribe,
//! and schedules those tones as phase-continuous runs of PCM samples.
//!
//! All quantities are exact integers: durations are nanoseconds, frequencies
//! are counted in steps of `1 / PITCH_PER_HZ` Hz, and the oscillator carries
//! its phase and its fractional sample count as integer remainders.

pub mod args;
pub mod encoder;
pub mod mode;
pub mod oscillator;
pub mod raster;
pub mod scan;
pub mod tone;
pub mod vis;

pub use args::{parse_args, parse_u32, ArgError, Command, Settings};
pub use encoder::schedule;
pub use mode::{Family, SSTVMode, UnknownMode};
pub use oscillator::{Oscillator, Segment, NS_PER_S};
pub use raster::Raster;
pub use scan::encode;
pub use tone::{rgb_to_ycrcb, Tone, NS_PER_MS, PITCH_PER_HZ};
pub use vis::write_vis;
