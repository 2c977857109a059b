//! Protocol core of a Bitcoin ASIC miner: the BM13xx serial codec, the
//! Stratum V2 job-activation state machine, and the capture dissector that
//! reads both back from logic-analyser traces.

pub mod bytes;
pub mod codec;
pub mod crc;
pub mod dissect;
pub mod i2c;
pub mod job_source;
pub mod output;
mod paint;
pub mod peripheral;
pub mod protocol;
pub mod serial;
pub mod text;
