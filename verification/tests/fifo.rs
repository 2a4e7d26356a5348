use loopmaster::fifo::{AudioFifo, FifoConfigError, PopResult, PushResult, UnalignedSamples};

fn bits(samples: &[f32]) -> Vec<u32> {
    samples.iter().map(|sample| sample.to_bits()).collect()
}

#[test]
fn fifo_rejects_invalid_configuration() {
    assert!(matches!(AudioFifo::split(0, 2), Err(FifoConfigError::ZeroCapacity)));
    assert!(matches!(AudioFifo::split(4, 0), Err(FifoConfigError::ZeroChannels)));
    assert!(matches!(
        AudioFifo::split(usize::MAX, 2),
        Err(FifoConfigError::CapacityOverflow)
    ));
}

#[test]
fn preserves_order_and_reports_boundaries() {
    let (mut producer, mut consumer) = AudioFifo::split(2, 2).ok().unwrap();
    assert_eq!(
        consumer.pop_interleaved(&mut bits(&[9.0, 9.0])).unwrap(),
        PopResult::Empty
    );
    assert_eq!(
        producer.push_interleaved(&bits(&[1.0, 2.0, 3.0, 4.0])).unwrap(),
        PushResult::Complete { frames: 2 }
    );
    assert_eq!(producer.available_frames(), 0);
    assert_eq!(
        producer.push_interleaved(&bits(&[5.0, 6.0])).unwrap(),
        PushResult::Full
    );
    let mut output = bits(&[0.0; 4]);
    assert_eq!(
        consumer.pop_interleaved(&mut output).unwrap(),
        PopResult::Complete { frames: 2 }
    );
    assert_eq!(output, bits(&[1.0, 2.0, 3.0, 4.0]));
    assert_eq!(consumer.available_frames(), 0);
}

#[test]
fn supports_partial_reads_and_writes() {
    let (mut producer, mut consumer) = AudioFifo::split(2, 2).ok().unwrap();
    assert_eq!(
        producer
            .push_interleaved(&bits(&[1.0, 2.0, 3.0, 4.0, 5.0, 6.0]))
            .unwrap(),
        PushResult::Partial { frames: 2 }
    );
    let mut output = bits(&[0.0; 6]);
    assert_eq!(
        consumer.pop_interleaved(&mut output).unwrap(),
        PopResult::Partial { frames: 2 }
    );
    assert_eq!(&output[..4], &bits(&[1.0, 2.0, 3.0, 4.0])[..]);
    assert_eq!(
        producer.push_interleaved(&bits(&[5.0, 6.0, 7.0, 8.0])).unwrap(),
        PushResult::Complete { frames: 2 }
    );
    assert_eq!(&output[..4], &bits(&[1.0, 2.0, 3.0, 4.0])[..]);
    assert_eq!(
        consumer.pop_interleaved(&mut output[4..]).unwrap(),
        PopResult::Complete { frames: 1 }
    );
    assert_eq!(&output[4..], &bits(&[5.0, 6.0])[..]);
}

#[test]
fn rejects_unaligned_slices_without_mutation() {
    let (mut producer, mut consumer) = AudioFifo::split(4, 2).ok().unwrap();
    assert_eq!(
        producer.push_interleaved(&bits(&[1.0])).unwrap_err(),
        UnalignedSamples { samples: 1, channels: 2 }
    );
    let mut output = bits(&[7.0; 3]);
    assert_eq!(
        consumer.pop_interleaved(&mut output).unwrap_err(),
        UnalignedSamples { samples: 3, channels: 2 }
    );
    assert_eq!(output, bits(&[7.0; 3]));
}

#[test]
fn order_survives_many_small_blocks() {
    let (mut producer, mut consumer) = AudioFifo::split(8, 2).ok().unwrap();
    let expected: Vec<u32> = (0..2_000).map(|n| (n as f32).to_bits()).collect();
    let mut received: Vec<u32> = Vec::new();
    let mut offset = 0;
    while received.len() < expected.len() {
        let end = (offset + 14).min(expected.len());
        let written = producer.push_interleaved(&expected[offset..end]).unwrap().frames();
        offset += written * producer.channels();
        let mut block = vec![0; 10];
        let read = consumer.pop_interleaved(&mut block).unwrap().frames();
        received.extend_from_slice(&block[..read * consumer.channels()]);
    }
    assert_eq!(received, expected);
    assert_eq!(consumer.capacity_frames(), 8);
    assert_eq!(producer.capacity_frames(), 8);
}

#[test]
fn configuration_errors_have_messages() {
    for error in [
        FifoConfigError::ZeroCapacity,
        FifoConfigError::ZeroChannels,
        FifoConfigError::CapacityOverflow,
    ] {
        assert!(!error.message().is_empty());
    }
}

#[test]
fn what_a_read_leaves_can_be_read_next() {
    let (mut producer, mut consumer) = AudioFifo::split(4, 2).ok().unwrap();
    assert_eq!(consumer.available_frames(), 0);
    producer.push_interleaved(&bits(&[1.0, 2.0, 3.0, 4.0, 5.0, 6.0])).unwrap();
    assert_eq!(consumer.available_frames(), 3);
    let mut output = bits(&[0.0; 2]);
    consumer.pop_interleaved(&mut output).unwrap();
    assert_eq!(consumer.available_frames(), 2);
    consumer.pop_interleaved(&mut []).unwrap();
    assert_eq!(consumer.available_frames(), 2);
    producer.push_interleaved(&bits(&[7.0, 8.0])).unwrap();
    assert_eq!(consumer.available_frames(), 3);
}

#[test]
fn only_whole_frames_move() {
    let (mut producer, mut consumer) = AudioFifo::split(3, 3).ok().unwrap();
    let samples: Vec<u32> = (0..15).collect();
    assert_eq!(producer.available_frames(), 3);
    assert_eq!(
        producer.push_interleaved(&samples).unwrap(),
        PushResult::Partial { frames: 3 }
    );
    assert_eq!(producer.push_interleaved(&samples[..3]).unwrap(), PushResult::Full);
    let mut output = vec![99; 12];
    assert_eq!(
        consumer.pop_interleaved(&mut output[..6]).unwrap(),
        PopResult::Complete { frames: 2 }
    );
    assert_eq!(output[..7], [0, 1, 2, 3, 4, 5, 99]);
    assert_eq!(
        consumer.pop_interleaved(&mut output).unwrap(),
        PopResult::Partial { frames: 1 }
    );
    assert_eq!(output[..4], [6, 7, 8, 3]);
    assert_eq!(consumer.pop_interleaved(&mut output[..3]).unwrap(), PopResult::Empty);
    assert_eq!(output[..3], [6, 7, 8]);
}
