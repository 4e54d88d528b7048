//! FM multiplex and RDS encoder core: the RDS character set, block checkwords,
//! alternative-frequency lists, clock-time groups, group scheduling and the bit clock of
//! the biphase shaper, and the integer bookkeeping of the MPX composer, the output
//! resampler and the look-ahead limiter, with the parsing of typed station identifiers.
//! The floating-point sample arithmetic runs outside this crate on the indices,
//! signs and counts that it gives.
pub mod af;
pub mod block;
pub mod charset;
pub mod clock;
pub mod config;
pub mod limiter;
pub mod mpx;
pub mod programme;
pub mod rds;
pub mod resample;
pub mod radiodns;
