use librivox_streamer::pool::{
    next_chunk, required_samples, AudioChunk, DecodeState, TrackError, TrackProcessor,
};
use librivox_streamer::distributions::speed_q20;

#[test]
fn speed_table_matches_semitone_formula() {
    for step in -4i32..=4 {
        let q = speed_q20(step);
        let expected = (2f64.powf(step as f64 / -12.0) * 1048576.0).floor() as u64;
        assert_eq!(q, expected);
        let factor = q as f64 / 1048576.0;
        assert!(factor >= 0.7937);
        assert!(factor <= 1.2600);
    }
}

#[test]
fn required_samples_exact_values() {
    assert_eq!(required_samples(0, 16000), 131071);
    assert_eq!(required_samples(0, 8000), 65535);
    assert_eq!(required_samples(0, 1), 8);
    assert_eq!(required_samples(-4, 44100), 455164);
    assert_eq!(required_samples(4, 22050), 143367);
    assert_eq!(required_samples(2, 48000), 350312);
    assert_eq!(required_samples(0, 0), 0);
    // The widest window the formula can ask for: the slowest step at the
    // largest representable rate.
    assert_eq!(required_samples(-4, u32::MAX), 44329160095);
    assert_eq!(required_samples(4, u32::MAX), 27925630740);
}

#[test]
fn zero_rate_track_owes_empty_windows() {
    let mut state = DecodeState::new(0, 0);
    assert_eq!(state.required, 0);
    assert!(state.ready());
    state.push_samples(&vec![5, 6]);
    let chunk = state.take_chunk(1);
    assert_eq!(chunk.samples.len(), 0);
    assert_eq!(state.samples, vec![5, 6]);
}

#[test]
fn accumulator_window_and_remainder() {
    // At rate 1 and step 0 a window owes exactly 8 samples.
    let mut state = DecodeState::new(1, 0);
    assert_eq!(state.required, 8);
    state.push_samples(&vec![0, 1, 2, 3, 4]);
    assert!(!state.ready());
    state.push_samples(&vec![5, 6, 7, 8, 9, 10]);
    assert!(state.ready());
    let chunk = state.take_chunk(3);
    assert_eq!(chunk.samples, vec![0, 1, 2, 3, 4, 5, 6, 7]);
    assert_eq!(chunk.sample_rate, 1);
    assert_eq!(chunk.step_factor, 0);
    assert_eq!(chunk.speed_factor_q20, 1048576);
    assert_eq!(chunk.samples.len() as u64, required_samples(0, 1));
    // The excess stays buffered, shifted to the front.
    assert_eq!(state.samples, vec![8, 9, 10]);
    assert_eq!(state.step_factor, 3);
    assert_eq!(state.required, required_samples(3, 1));
    assert!(!state.ready());
}

#[test]
fn next_chunk_none_after_close() {
    let (tx, rx) = flume::bounded::<AudioChunk>(4);
    tx.send(AudioChunk { samples: vec![1, 2], sample_rate: 8000, speed_factor_q20: 1048576, step_factor: 0 })
        .unwrap();
    drop(tx);
    let got = next_chunk(&rx);
    assert!(got.is_some());
    assert_eq!(got.unwrap().samples, vec![1, 2]);
    assert!(next_chunk(&rx).is_none());
    assert!(next_chunk(&rx).is_none());
    assert!(next_chunk(&rx).is_none());
}

fn wav_mono_s16(sample_rate: u32, samples: &[i16]) -> Vec<u8> {
    let data_len = (samples.len() * 2) as u32;
    let mut out: Vec<u8> = Vec::new();
    out.extend_from_slice(b"RIFF");
    out.extend_from_slice(&(36 + data_len).to_le_bytes());
    out.extend_from_slice(b"WAVE");
    out.extend_from_slice(b"fmt ");
    out.extend_from_slice(&16u32.to_le_bytes());
    out.extend_from_slice(&1u16.to_le_bytes());
    out.extend_from_slice(&1u16.to_le_bytes());
    out.extend_from_slice(&sample_rate.to_le_bytes());
    out.extend_from_slice(&(sample_rate * 2).to_le_bytes());
    out.extend_from_slice(&2u16.to_le_bytes());
    out.extend_from_slice(&16u16.to_le_bytes());
    out.extend_from_slice(b"data");
    out.extend_from_slice(&data_len.to_le_bytes());
    for s in samples {
        out.extend_from_slice(&s.to_le_bytes());
    }
    out
}

#[test]
fn decodes_wav_into_full_windows() {
    let n: usize = 170_000;
    let ramp: Vec<i16> = (0..n).map(|i| (i % 10_000) as i16).collect();
    let wav = wav_mono_s16(8000, &ramp);

    let (tx, rx) = flume::unbounded::<AudioChunk>();
    let mut processor = TrackProcessor::open(std::io::Cursor::new(wav)).expect("probe failed");
    while processor.step(&tx) {}
    drop(tx);

    let chunks: Vec<AudioChunk> = rx.iter().collect();
    // 170_000 samples cover at least two windows whatever steps were drawn.
    assert!(chunks.len() >= 2);

    let mut decoded: Vec<u32> = Vec::new();
    for chunk in chunks.iter() {
        assert_eq!(chunk.sample_rate, 8000);
        assert!(chunk.step_factor >= -4 && chunk.step_factor <= 4);
        assert_eq!(chunk.speed_factor_q20, speed_q20(chunk.step_factor));
        assert_eq!(chunk.samples.len() as u64, required_samples(chunk.step_factor, 8000));
        decoded.extend_from_slice(&chunk.samples);
    }
    // Chunks carry the decoded stream in order, nothing lost in between:
    // the concatenation is a prefix of the pushed ramp.
    assert!(decoded.len() <= n);
    for (i, bits) in decoded.iter().enumerate() {
        let got = f32::from_bits(*bits);
        let want = (ramp[i] as f32) / 32768.0;
        assert!((got - want).abs() < 1e-6, "sample {} differs: {} vs {}", i, got, want);
    }
}

#[test]
fn garbage_bytes_fail_with_format_error() {
    let garbage = vec![0u8; 4096];
    let res = TrackProcessor::open(std::io::Cursor::new(garbage));
    match res {
        Ok(_) => panic!("garbage should not probe"),
        Err(e) => assert_eq!(e, TrackError::Format),
    }
}
