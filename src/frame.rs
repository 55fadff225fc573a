use vstd::prelude::*;

verus! {

/// A high pulse longer than this many microseconds encodes a `1` bit; a pulse
/// of exactly this length or shorter encodes a `0` bit.
pub const BIT_THRESHOLD_US: u64 = 40;

/// The step of a read attempt at which the line failed to change in time.
#[derive(Clone, Copy, Debug, PartialEq, Eq, Structural)]
pub enum Stage {
    /// One of the three waits of the sensor's reply to the wake signal (0, 1 or 2).
    Handshake(u8),
    /// One of the two waits of data bit number `i` (0 to 39).
    Bit(u8),
}

/// Why a read attempt failed.
#[derive(Clone, Copy, Debug, PartialEq, Eq, Structural)]
pub enum ReadError {
    /// The line stayed at one level longer than the stage allows.
    Timeout(Stage),
    /// The transmitted checksum is off by more than the tolerated jitter.
    ChecksumMismatch { expected: u8, got: u8 },
}

/// How a frame's checksum was accepted.
#[derive(Clone, Copy, Debug, PartialEq, Eq, Structural)]
pub enum Acceptance {
    /// The transmitted checksum equals the computed one.
    Exact,
    /// The two differ by one: accepted as sensor jitter, with a warning.
    Tolerated,
}

/// A reading in the sensor's natural units: degrees and percent.
#[derive(Clone, Copy, Debug, PartialEq, Eq, Structural)]
pub struct DecodedReading {
    pub temperature: u8,
    pub humidity: u8,
}

/// A decoded reading, with whether its checksum was only accepted within tolerance.
#[derive(Clone, Copy, Debug, PartialEq, Eq, Structural)]
pub struct Accepted {
    pub reading: DecodedReading,
    pub warning: bool,
}

pub open spec fn checksum_of(b0: u8, b1: u8, b2: u8, b3: u8) -> int {
    (b0 + b1 + b2 + b3) % 256
}

/// The value of a bit pattern read most significant bit first.
pub open spec fn bits_value(bits: Seq<u8>) -> nat
    decreases bits.len(),
{
    if bits.len() == 0 {
        0
    } else {
        2 * bits_value(bits.drop_last()) + bits.last() as nat
    }
}

pub open spec fn bit_of(high_us: u64) -> u8 {
    if high_us > BIT_THRESHOLD_US {
        1
    } else {
        0
    }
}

pub open spec fn abs_diff(a: u8, b: u8) -> int {
    if a >= b {
        a - b
    } else {
        b - a
    }
}

pub open spec fn acceptance_of(expected: u8, got: u8) -> Result<Acceptance, ReadError> {
    if expected == got {
        Ok(Acceptance::Exact)
    } else if abs_diff(expected, got) <= 1 {
        Ok(Acceptance::Tolerated)
    } else {
        Err(ReadError::ChecksumMismatch { expected, got })
    }
}

/// What a complete frame decodes to: byte 0 is the humidity, byte 2 the
/// temperature, byte 4 the checksum of bytes 0 to 3.
pub open spec fn frame_result(frame: Seq<u8>) -> Result<Accepted, ReadError>
    recommends
        frame.len() == 5,
{
    match acceptance_of(checksum_of(frame[0], frame[1], frame[2], frame[3]) as u8, frame[4]) {
        Ok(a) => Ok(
            Accepted {
                reading: DecodedReading { temperature: frame[2], humidity: frame[0] },
                warning: a == Acceptance::Tolerated,
            },
        ),
        Err(e) => Err(e),
    }
}

/// The checksum of the four data bytes: their sum, wrapping at 256.
pub fn checksum(b0: u8, b1: u8, b2: u8, b3: u8) -> (r: u8)
    ensures
        r == checksum_of(b0, b1, b2, b3),
{
    let sum: u16 = b0 as u16 + b1 as u16 + b2 as u16 + b3 as u16;
    (sum % 256) as u8
}

/// The acceptance rule: equal checksums pass, checksums one apart pass with a
/// warning, anything else is a mismatch.
pub fn accept(expected: u8, got: u8) -> (r: Result<Acceptance, ReadError>)
    ensures
        r == acceptance_of(expected, got),
{
    if expected == got {
        Ok(Acceptance::Exact)
    } else if (expected as i16 - got as i16) <= 1 && (got as i16 - expected as i16) <= 1 {
        Ok(Acceptance::Tolerated)
    } else {
        Err(ReadError::ChecksumMismatch { expected, got })
    }
}

/// The bit that a high pulse of `high_us` microseconds encodes.
pub fn classify_bit(high_us: u64) -> (bit: u8)
    ensures
        bit == bit_of(high_us),
        bit <= 1,
{
    if high_us > BIT_THRESHOLD_US {
        1
    } else {
        0
    }
}

/// Validates a complete frame against its checksum and interprets it.
pub fn decode_frame(frame: &[u8; 5]) -> (r: Result<Accepted, ReadError>)
    ensures
        r == frame_result(frame@),
{
    let expected = checksum(frame[0], frame[1], frame[2], frame[3]);
    match accept(expected, frame[4]) {
        Ok(a) => Ok(
            Accepted {
                reading: DecodedReading { temperature: frame[2], humidity: frame[0] },
                warning: match a {
                    Acceptance::Exact => false,
                    Acceptance::Tolerated => true,
                },
            },
        ),
        Err(e) => Err(e),
    }
}

} // verus!
