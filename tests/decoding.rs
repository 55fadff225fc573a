use meteo_interior::{
    accept, checksum, classify_bit, decode_frame, Accepted, Acceptance, Decoder, DecodedReading,
    Level, ReadError, Stage, Wait, WAIT_COUNT, WAIT_TIMEOUT_US,
};

/// Feeds a full attempt: three handshake waits, then for each bit of `bytes`
/// (most significant first) a low marker and a high pulse of 26 or 70 µs.
fn run_frame(bytes: [u8; 5]) -> (Decoder, Result<Accepted, ReadError>) {
    let mut d = Decoder::new();
    for _ in 0..3 {
        assert!(d.on_wait(Some(80)).is_none());
    }
    let mut result = None;
    for i in 0..40 {
        let bit = (bytes[i / 8] >> (7 - (i % 8))) & 1;
        assert!(d.on_wait(Some(50)).is_none());
        result = d.on_wait(Some(if bit == 1 { 70 } else { 26 }));
        if i < 39 {
            assert!(result.is_none());
        }
    }
    (d, result.unwrap())
}

#[test]
fn checksum_sums_four_bytes() {
    assert_eq!(checksum(55, 0, 25, 0), 80);
    assert_eq!(checksum(1, 2, 3, 4), 10);
}

#[test]
fn checksum_wraps_around() {
    assert_eq!(checksum(200, 200, 0, 0), 144);
    assert_eq!(checksum(255, 255, 255, 255), 252);
    assert_eq!(checksum(128, 128, 0, 0), 0);
}

#[test]
fn accept_equal_checksum_without_warning() {
    assert_eq!(accept(10, 10), Ok(Acceptance::Exact));
}

#[test]
fn accept_off_by_one_with_warning() {
    assert_eq!(accept(10, 11), Ok(Acceptance::Tolerated));
    assert_eq!(accept(10, 9), Ok(Acceptance::Tolerated));
}

#[test]
fn reject_off_by_two() {
    assert_eq!(accept(10, 12), Err(ReadError::ChecksumMismatch { expected: 10, got: 12 }));
}

#[test]
fn no_tolerance_across_wraparound() {
    assert_eq!(accept(255, 0), Err(ReadError::ChecksumMismatch { expected: 255, got: 0 }));
    assert_eq!(accept(0, 255), Err(ReadError::ChecksumMismatch { expected: 0, got: 255 }));
}

#[test]
fn classify_bit_boundary() {
    assert_eq!(classify_bit(39), 0);
    assert_eq!(classify_bit(40), 0);
    assert_eq!(classify_bit(41), 1);
    assert_eq!(classify_bit(0), 0);
    assert_eq!(classify_bit(u64::MAX), 1);
}

#[test]
fn decode_frame_reads_humidity_and_temperature() {
    let r = decode_frame(&[55, 0, 25, 0, 80]);
    assert_eq!(
        r,
        Ok(Accepted { reading: DecodedReading { temperature: 25, humidity: 55 }, warning: false })
    );
}

#[test]
fn decode_frame_tolerated_checksum_warns() {
    let r = decode_frame(&[55, 0, 25, 0, 81]);
    assert_eq!(
        r,
        Ok(Accepted { reading: DecodedReading { temperature: 25, humidity: 55 }, warning: true })
    );
}

#[test]
fn decode_frame_rejects_bad_checksum() {
    assert_eq!(
        decode_frame(&[55, 0, 25, 0, 90]),
        Err(ReadError::ChecksumMismatch { expected: 80, got: 90 })
    );
}

#[test]
fn full_decode_of_constructed_bits() {
    let (d, r) = run_frame([55, 0, 25, 0, 80]);
    assert_eq!(
        r,
        Ok(Accepted { reading: DecodedReading { temperature: 25, humidity: 55 }, warning: false })
    );
    assert_eq!(d.frame_bytes(), [55, 0, 25, 0, 80]);
    assert!(d.is_done());
}

#[test]
fn full_decode_packs_most_significant_bit_first() {
    let (d, r) = run_frame([0x81, 0x7E, 0x01, 0x80, 0x80]);
    assert_eq!(d.frame_bytes(), [0x81, 0x7E, 0x01, 0x80, 0x80]);
    assert_eq!(
        r,
        Ok(Accepted { reading: DecodedReading { temperature: 1, humidity: 0x81 }, warning: false })
    );
}

#[test]
fn full_decode_with_checksum_mismatch() {
    let (_, r) = run_frame([55, 0, 25, 0, 12]);
    assert_eq!(r, Err(ReadError::ChecksumMismatch { expected: 80, got: 12 }));
}

#[test]
fn handshake_timeout_at_each_stage() {
    for stage in 0..3u8 {
        let mut d = Decoder::new();
        for _ in 0..stage {
            assert!(d.on_wait(Some(80)).is_none());
        }
        let r = d.on_wait(None);
        assert_eq!(r, Some(Err(ReadError::Timeout(Stage::Handshake(stage)))));
        assert_eq!(d.frame_bytes(), [0, 0, 0, 0, 0]);
        assert!(d.is_done());
    }
}

#[test]
fn timeout_during_data_bits_names_the_bit() {
    let mut d = Decoder::new();
    for _ in 0..3 {
        d.on_wait(Some(80));
    }
    // bit 0 completes as a one, then bit 1 times out on its start marker
    assert!(d.on_wait(Some(50)).is_none());
    assert!(d.on_wait(Some(70)).is_none());
    assert_eq!(d.on_wait(None), Some(Err(ReadError::Timeout(Stage::Bit(1)))));
    assert_eq!(d.frame_bytes(), [1, 0, 0, 0, 0]);

    let mut d = Decoder::new();
    for _ in 0..3 {
        d.on_wait(Some(80));
    }
    for _ in 0..39 {
        d.on_wait(Some(50));
        d.on_wait(Some(26));
    }
    d.on_wait(Some(50));
    assert_eq!(d.on_wait(None), Some(Err(ReadError::Timeout(Stage::Bit(39)))));
}

#[test]
fn pending_waits_follow_the_protocol() {
    let mut d = Decoder::new();
    let expected = [Level::High, Level::Low, Level::High, Level::Low, Level::High, Level::Low];
    for level in expected {
        assert_eq!(d.pending_wait(), Wait { level, timeout_us: WAIT_TIMEOUT_US });
        d.on_wait(Some(50));
    }
    assert_eq!(WAIT_COUNT, 83);
}

#[test]
fn wait_expires_only_past_its_timeout() {
    let w = Wait { level: Level::High, timeout_us: 100 };
    assert!(!w.expired(99));
    assert!(!w.expired(100));
    assert!(w.expired(101));
}
