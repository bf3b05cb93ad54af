//! Host side of the HF2 flashing protocol.
//!
//! - `frame`: splitting messages into fixed-size transport frames and
//!   joining them back.
//! - `command`: commands and responses as logical messages.
//! - `catalog`: opcodes, request encoders and response decoders.
//! - `flash`: padding, checksum batching, write selection and verification.
//! - `session`: a flashing or verification session as a state machine
//!   driven by the device's replies.
//! - `cli`: the subcommands and their number syntax.
pub mod wire;
pub mod frame;
pub mod command;
pub mod catalog;
pub mod flash;
pub mod session;
pub mod cli;
