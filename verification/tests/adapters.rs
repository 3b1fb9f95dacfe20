use audisuals::mp3::Mp3Frame;
use audisuals::mp3::Mp3Song;
use audisuals::wav::wav_sample_max;
use audisuals::wav::wav_sample_time_ms;

#[test]
fn mp3_walk_through_frames() {
    let mut song = Mp3Song::new();
    assert_eq!(song.sample_max_value(), u32::MAX / 8);

    // No frame yet: nothing to hand out, and a failed fetch changes nothing.
    assert_eq!(song.try_next(), None);
    assert_eq!(song.next_after_fetch(None), None);

    // A two-sample frame of one millisecond: each sample gets half.
    let frame = Mp3Frame {
        samples: vec![5, 6],
        duration_ns: 1_000_000,
    };
    let first = song.next_after_fetch(Some(frame)).unwrap();
    assert_eq!(first.sample, 5);
    assert_eq!(first.time_ns, 500_000);

    let second = song.try_next().unwrap();
    assert_eq!(second.sample, 6);
    assert_eq!(second.time_ns, 1_000_000);

    // Frame exhausted: a fetch is needed.
    assert_eq!(song.try_next(), None);

    let next_frame = Mp3Frame {
        samples: vec![7],
        duration_ns: 100,
    };
    let third = song.next_after_fetch(Some(next_frame)).unwrap();
    assert_eq!(third.sample, 7);
    assert_eq!(third.time_ns, 1_000_100);

    // An empty frame ends the stream without advancing time.
    let empty = Mp3Frame {
        samples: vec![],
        duration_ns: 999,
    };
    assert_eq!(song.next_after_fetch(Some(empty)), None);
    assert_eq!(song.current_time_ns, 1_000_100);
}

#[test]
fn mp3_failed_fetch_keeps_state() {
    let mut song = Mp3Song::new();
    let frame = Mp3Frame {
        samples: vec![1, 2, 3],
        duration_ns: 300,
    };
    assert!(song.next_frame(Some(frame)));
    assert_eq!(song.try_next().unwrap().sample, 1);
    assert!(!song.next_frame(None));
    // The cursor and time are untouched by the failed fetch.
    assert_eq!(song.current_frame_sample, 1);
    assert_eq!(song.try_next().unwrap().sample, 2);
}

#[test]
fn wav_sample_magnitude_and_timing() {
    assert_eq!(wav_sample_max(16), 65_536);
    assert_eq!(wav_sample_max(8), 256);
    assert_eq!(wav_sample_max(0), 1);
    // One second of samples at 44.1 kHz.
    assert_eq!(wav_sample_time_ms(44_100, 44_100), 1000);
    assert_eq!(wav_sample_time_ms(22_050, 44_100), 500);
    assert_eq!(wav_sample_time_ms(0, 44_100), 0);
    // Truncating division, as whole milliseconds.
    assert_eq!(wav_sample_time_ms(1, 44_100), 0);
    assert_eq!(wav_sample_time_ms(441, 44_100), 10);
}
