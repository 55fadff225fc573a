use vstd::prelude::*;

use crate::frame::{
    bit_of, bits_value, classify_bit, decode_frame, frame_result, Accepted, ReadError, Stage,
};

verus! {

/// How long the host holds the line low to wake the sensor, in milliseconds.
pub const WAKE_LOW_MS: u64 = 20;

/// The longest the line may stay at one level during any wait, in microseconds.
pub const WAIT_TIMEOUT_US: u64 = 100;

/// The number of waits in a read attempt: three for the handshake reply, then
/// two for each of the 40 data bits (the low start marker, then the high pulse).
pub const WAIT_COUNT: u8 = 83;

/// A logic level of the line.
#[derive(Clone, Copy, Debug, PartialEq, Eq, Structural)]
pub enum Level {
    Low,
    High,
}

/// Wait while the line stays at `level`, for at most `timeout_us` microseconds.
#[derive(Clone, Copy, Debug, PartialEq, Eq, Structural)]
pub struct Wait {
    pub level: Level,
    pub timeout_us: u64,
}

impl Wait {
    /// Whether a wait that has lasted `elapsed_us` microseconds has run out of
    /// time; lasting exactly the timeout is still in time.
    pub fn expired(&self, elapsed_us: u64) -> (r: bool)
        ensures
            r == (elapsed_us > self.timeout_us),
    {
        elapsed_us > self.timeout_us
    }
}

/// The decisions of one read attempt, after the wake signal has been sent.
///
/// The caller asks for the pending wait, performs it on the line, and hands
/// back the time the line spent at that level, or `None` when the wait timed
/// out. After the last wait, or the first that timed out, the decoder returns
/// the result of the attempt.
pub struct Decoder {
    step: u8,
    done: bool,
    frame: [u8; 5],
    bits: Ghost<Seq<u8>>,
}

/// The number of data bits completely received before wait number `step`.
pub open spec fn bits_before(step: int) -> int {
    if step < 3 {
        0
    } else {
        (step - 3) / 2
    }
}

/// The level that wait number `step` waits out.
pub open spec fn level_at(step: int) -> Level {
    if step == 1 {
        Level::Low
    } else if step < 3 {
        Level::High
    } else if (step - 3) % 2 == 0 {
        Level::Low
    } else {
        Level::High
    }
}

/// Whether wait number `step` measures the high pulse of a data bit.
pub open spec fn measures_bit(step: int) -> bool {
    step >= 3 && (step - 3) % 2 == 1
}

/// The stage that a timeout of wait number `step` is attributed to.
pub open spec fn stage_at(step: int) -> Stage {
    if step < 3 {
        Stage::Handshake(step as u8)
    } else {
        Stage::Bit(((step - 3) / 2) as u8)
    }
}

/// Byte `k` of a frame of which only the bits `bits` have been received so far:
/// the received bits of that byte, most significant first.
pub open spec fn partial_byte(bits: Seq<u8>, k: int) -> u8 {
    let lo = if 8 * k < bits.len() { 8 * k } else { bits.len() as int };
    let hi = if 8 * k + 8 < bits.len() { 8 * k + 8 } else { bits.len() as int };
    bits_value(bits.subrange(lo, hi)) as u8
}

/// The frame built from the bits received so far; bytes not yet reached are zero.
pub open spec fn partial_frame(bits: Seq<u8>) -> Seq<u8> {
    Seq::new(5, |k: int| partial_byte(bits, k))
}

pub open spec fn pow2_of(n: nat) -> nat
    decreases n,
{
    if n == 0 {
        1
    } else {
        2 * pow2_of((n - 1) as nat)
    }
}

proof fn lemma_bits_value_bound(bits: Seq<u8>)
    requires
        forall|i: int| 0 <= i < bits.len() ==> bits[i] <= 1,
    ensures
        bits_value(bits) < pow2_of(bits.len()),
    decreases bits.len(),
{
    if bits.len() > 0 {
        lemma_bits_value_bound(bits.drop_last());
    }
}

proof fn lemma_pow2_mono(n: nat)
    requires
        n <= 7,
    ensures
        pow2_of(n) <= 128,
    decreases 7 - n,
{
    if n < 7 {
        lemma_pow2_mono(n + 1);
    } else {
        reveal_with_fuel(pow2_of, 8);
    }
}

/// Appending a bit changes only the byte it falls in, which it shifts in at
/// the least significant end.
proof fn lemma_push_bit(bits: Seq<u8>, b: u8)
    requires
        bits.len() < 40,
        b <= 1,
        forall|i: int| 0 <= i < bits.len() ==> bits[i] <= 1,
    ensures
        ({
            let k = bits.len() / 8;
            let nb = bits.push(b);
            &&& partial_frame(bits)[k as int] < 128
            &&& partial_frame(nb) == partial_frame(bits).update(
                k as int,
                (2 * partial_frame(bits)[k as int] + b) as u8,
            )
        }),
{
    let k = (bits.len() / 8) as int;
    let nb = bits.push(b);
    let cur = bits.subrange(8 * k, bits.len() as int);
    assert(nb.subrange(8 * k, nb.len() as int).drop_last() == cur);
    lemma_bits_value_bound(cur);
    lemma_pow2_mono(cur.len());
    assert forall|j: int| 0 <= j < 5 && j != k implies partial_byte(nb, j) == partial_byte(
        bits,
        j,
    ) by {
        if j < k {
            assert(nb.subrange(8 * j, 8 * j + 8) == bits.subrange(8 * j, 8 * j + 8));
        } else {
            assert(nb.subrange(nb.len() as int, nb.len() as int) == bits.subrange(
                bits.len() as int,
                bits.len() as int,
            ));
        }
    }
    assert(partial_frame(nb) == partial_frame(bits).update(
        k,
        (2 * partial_frame(bits)[k] + b) as u8,
    ));
}

impl Decoder {
    /// The bits received so far, in order.
    pub closed spec fn bits(&self) -> Seq<u8> {
        self.bits@
    }

    /// The number of waits already handled.
    pub closed spec fn step(&self) -> int {
        self.step as int
    }

    /// Whether the attempt has ended.
    pub closed spec fn done(&self) -> bool {
        self.done
    }

    /// The frame as received so far.
    pub closed spec fn frame(&self) -> Seq<u8> {
        self.frame@
    }

    pub closed spec fn wf(&self) -> bool {
        &&& self.step <= WAIT_COUNT
        &&& (self.step == WAIT_COUNT ==> self.done)
        &&& self.bits@.len() == bits_before(self.step as int)
        &&& forall|i: int| 0 <= i < self.bits@.len() ==> self.bits@[i] <= 1
        &&& self.frame@ == partial_frame(self.bits@)
    }

    /// A decoder for a fresh attempt: no wait handled, an all-zero frame.
    pub fn new() -> (d: Decoder)
        ensures
            d.wf(),
            d.step() == 0,
            !d.done(),
            d.bits() == Seq::<u8>::empty(),
            d.frame() == seq![0u8, 0u8, 0u8, 0u8, 0u8],
    {
        let d = Decoder { step: 0, done: false, frame: [0u8; 5], bits: Ghost(Seq::empty()) };
        proof {
            assert(d.frame@ =~= partial_frame(Seq::empty()));
        }
        d
    }

    /// Whether the attempt has ended.
    pub fn is_done(&self) -> (r: bool)
        ensures
            r == self.done(),
    {
        self.done
    }

    /// The frame as received so far.
    pub fn frame_bytes(&self) -> (r: [u8; 5])
        ensures
            r@ == self.frame(),
    {
        self.frame
    }

    /// The wait that the caller is to perform next.
    pub fn pending_wait(&self) -> (w: Wait)
        requires
            self.wf(),
            !self.done(),
        ensures
            w.level == level_at(self.step()),
            w.timeout_us == WAIT_TIMEOUT_US,
    {
        let level = if self.step == 1 {
            Level::Low
        } else if self.step < 3 {
            Level::High
        } else if (self.step - 3) % 2 == 0 {
            Level::Low
        } else {
            Level::High
        };
        Wait { level, timeout_us: WAIT_TIMEOUT_US }
    }
    /// Handles the outcome of the pending wait: the time the line spent at the
    /// awaited level, or `None` when the wait timed out.
    ///
    /// A timeout ends the attempt with the stage it happened at, leaving the
    /// frame as it was. The high pulse of a data bit is classified and shifted
    /// into the frame, most significant bit first. After the last wait the
    /// complete frame is validated and interpreted.
    pub fn on_wait(&mut self, elapsed: Option<u64>) -> (r: Option<Result<Accepted, ReadError>>)
        requires
            old(self).wf(),
            !old(self).done(),
        ensures
            final(self).wf(),
            match elapsed {
                None => {
                    &&& r == Some(
                        Err::<Accepted, ReadError>(ReadError::Timeout(stage_at(old(self).step()))),
                    )
                    &&& final(self).done()
                    &&& final(self).step() == old(self).step()
                    &&& final(self).bits() == old(self).bits()
                    &&& final(self).frame() == old(self).frame()
                },
                Some(us) => {
                    &&& final(self).step() == old(self).step() + 1
                    &&& final(self).bits() == if measures_bit(old(self).step()) {
                        old(self).bits().push(bit_of(us))
                    } else {
                        old(self).bits()
                    }
                    &&& final(self).frame() == partial_frame(final(self).bits())
                    &&& final(self).done() == (final(self).step() == WAIT_COUNT)
                    &&& r == if final(self).done() {
                        Some(frame_result(final(self).frame()))
                    } else {
                        None
                    }
                },
            },
    {
        match elapsed {
            None => {
                let stage = if self.step < 3 {
                    Stage::Handshake(self.step)
                } else {
                    Stage::Bit((self.step - 3) / 2)
                };
                self.done = true;
                Some(Err(ReadError::Timeout(stage)))
            },
            Some(us) => {
                if self.step >= 3 && (self.step - 3) % 2 == 1 {
                    let bit = classify_bit(us);
                    let k: usize = (((self.step - 3) / 2) / 8) as usize;
                    proof {
                        lemma_push_bit(self.bits@, bit);
                    }
                    let byte = self.frame[k];
                    self.frame[k] = 2 * byte + bit;
                    self.bits = Ghost(self.bits@.push(bit));
                }
                self.step = self.step + 1;
                if self.step == WAIT_COUNT {
                    self.done = true;
                    Some(decode_frame(&self.frame))
                } else {
                    None
                }
            },
        }
    }
}

/// A timeout during the handshake reply is attributed to its handshake stage,
/// and no data bit has been written into the frame by then: the frame that
/// `on_wait` leaves behind on that timeout is all zero.
pub proof fn lemma_handshake_timeout_leaves_frame_empty(d: Decoder)
    requires
        d.wf(),
        !d.done(),
        d.step() < 3,
    ensures
        stage_at(d.step()) == Stage::Handshake(d.step() as u8),
        d.bits().len() == 0,
        d.frame() == seq![0u8, 0u8, 0u8, 0u8, 0u8],
{
    assert(d.frame() =~= seq![0u8, 0u8, 0u8, 0u8, 0u8]);
}

} // verus!
