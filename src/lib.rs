//! A sliding discrete Fourier transform over a stream of real samples.

mod engine;
mod numeric;
mod ring;

pub use engine::SlidingDFT;
pub use numeric::Numeric;
pub use ring::SampleRing;
