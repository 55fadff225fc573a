//! Decoding of a single-wire, pulse-width encoded temperature and humidity
//! sensor, and the scheduling policy of the loop that polls it.
//!
//! The library holds the decisions only: `frame` validates and interprets a
//! 40-bit frame, `decoder` is the step-by-step state machine of one read
//! attempt, and `poll` is the consecutive-failure backoff policy. Driving the
//! pin, measuring time, and sending readings over the network belong to the
//! program that uses it.

mod decoder;
mod frame;
mod poll;

pub use frame::{
    accept, checksum, classify_bit, decode_frame, Accepted, Acceptance, DecodedReading,
    ReadError, Stage, BIT_THRESHOLD_US,
};
pub use decoder::{
    lemma_handshake_timeout_leaves_frame_empty, Decoder, Level, Wait, WAIT_COUNT, WAIT_TIMEOUT_US,
    WAKE_LOW_MS,
};
pub use poll::{
    lemma_backoff_after_five_failures, lemma_success_resets, CycleOutcome, ConfigError, PollPolicy,
    BACKOFF_FACTOR, FAILURE_THRESHOLD,
};
