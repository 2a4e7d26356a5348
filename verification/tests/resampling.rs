use loopmaster::resampler::{
    join_channels, split_channels, FixedInputResampler, FixedOutputResampler,
    ResamplerConfigError, ResamplerProcessError,
};
use loopmaster::tone::{fill_block, TestToneConfig, TestToneKind, ToneFrequency, TonePhase};

fn oscillation(frequency: ToneFrequency, frame: u64) -> f32 {
    let hertz = match frequency {
        ToneFrequency::Configured => 440.0,
        ToneFrequency::Hertz(hertz) => hertz as f64,
    };
    (2.0 * std::f64::consts::PI * hertz * frame as f64 / 48_000.0).sin() as f32 * 0.5
}

fn tone(kind: TestToneKind) -> TestToneConfig<f32> {
    TestToneConfig { kind, period: 109, amplitude: 0.5, silence: 0.0 }
}

fn fill(kind: TestToneKind, frames: usize, channels: usize) -> Vec<f32> {
    let mut block = vec![0.0f32; frames * channels];
    let mut phase = TonePhase { frame: 0 };
    fill_block(&mut block, channels, &tone(kind), &mut phase, &oscillation);
    block
}

#[test]
fn resampler_rejects_invalid_configuration() {
    assert_eq!(
        FixedOutputResampler::new(0, 48_000, 2, 480).err(),
        Some(ResamplerConfigError::ZeroInputRate)
    );
    assert_eq!(
        FixedOutputResampler::new(44_100, 48_000, 0, 480).err(),
        Some(ResamplerConfigError::ZeroChannels)
    );
}

#[test]
fn validates_interleaved_block_lengths() {
    let resampler = FixedOutputResampler::new(44_100, 48_000, 2, 480).unwrap();
    let input_frames = 441;
    let expected_input = input_frames * 2;
    assert_eq!(
        resampler
            .take_block(&vec![0.0f32; expected_input - 1], 960, input_frames)
            .unwrap_err(),
        ResamplerProcessError::InputLength {
            expected: expected_input,
            actual: expected_input - 1,
        }
    );
    assert_eq!(
        resampler
            .take_block(&vec![0.0f32; expected_input], 959, input_frames)
            .unwrap_err(),
        ResamplerProcessError::OutputLength { expected: 960, actual: 959 }
    );
}

#[test]
fn fixed_input_rejects_zero_rate_on_update() {
    let mut resampler = FixedInputResampler::new(48_000, 44_100, 2, 480).unwrap();
    assert_eq!(
        resampler.set_sample_rates(0, 48_000, Ok(())).unwrap_err(),
        ResamplerConfigError::ZeroInputRate
    );
    assert_eq!(
        resampler.set_sample_rates(48_000, 0, Ok(())).unwrap_err(),
        ResamplerConfigError::ZeroOutputRate
    );
    assert_eq!(resampler.input_rate(), 48_000);
    assert_eq!(resampler.output_rate(), 44_100);
}

#[test]
fn a_rate_that_the_engine_refuses_is_not_taken() {
    let mut resampler = FixedOutputResampler::new(48_000, 48_000, 2, 480).unwrap();
    assert_eq!(
        resampler.set_sample_rates(96_000, 48_000, Err("ratio".into())).unwrap_err(),
        ResamplerConfigError::Rubato("ratio".into())
    );
    assert_eq!(resampler.input_rate(), 48_000);
    resampler.set_sample_rates(48_001, 48_000, Ok(())).unwrap();
    assert_eq!(resampler.input_rate(), 48_001);
}

#[test]
fn channels_are_split_and_joined_again() {
    let block = [1, 10, 2, 20, 3, 30];
    let planes = split_channels(&block, 2, 3);
    assert_eq!(planes, vec![vec![1, 2, 3], vec![10, 20, 30]]);
    let mut joined = vec![0; 6];
    join_channels(&planes, 3, &mut joined);
    assert_eq!(joined, block);
}

#[test]
fn an_engine_that_gives_too_little_is_an_error() {
    let resampler = FixedOutputResampler::new(48_000, 48_000, 2, 2).unwrap();
    let planes = vec![vec![1, 2], vec![10, 20]];
    let mut output = vec![0; 4];
    assert_eq!(
        resampler.give_block(&planes, 1, &mut output).unwrap_err(),
        ResamplerProcessError::OutputFrames { expected: 2, actual: 1 }
    );
    resampler.give_block(&planes, 2, &mut output).unwrap();
    assert_eq!(output, vec![1, 10, 2, 20]);
}

#[test]
fn resampler_errors_have_messages() {
    for error in [
        ResamplerConfigError::ZeroInputRate,
        ResamplerConfigError::ZeroOutputRate,
        ResamplerConfigError::ZeroChannels,
        ResamplerConfigError::ZeroOutputFrames,
        ResamplerConfigError::SampleCountOverflow,
        ResamplerConfigError::Rubato("x".into()),
    ] {
        assert!(!error.message().is_empty());
    }
    assert_eq!(
        FixedInputResampler::new(1, 0, 2, 480).err(),
        Some(ResamplerConfigError::ZeroOutputRate)
    );
    assert_eq!(
        FixedInputResampler::new(1, 1, usize::MAX, usize::MAX).err(),
        Some(ResamplerConfigError::SampleCountOverflow)
    );
}

#[test]
fn silence_is_all_zero() {
    assert_eq!(fill(TestToneKind::Silence, 480, 2), vec![0.0; 960]);
}

#[test]
fn sine_starts_at_zero_and_oscillates() {
    let block = fill(TestToneKind::Sine, 480, 2);
    assert_eq!(block[0], 0.0);
    assert_eq!(block[1], 0.0);
    let peak = block.iter().fold(0.0f32, |m, &s| m.max(s.abs()));
    assert!((peak - 0.5).abs() < 0.02);
}

#[test]
fn impulse_is_periodic() {
    let mut block = vec![0.0f32; 480];
    let mut phase = TonePhase { frame: 0 };
    fill_block(
        &mut block,
        1,
        &TestToneConfig { kind: TestToneKind::Impulse, period: 24_000, amplitude: 0.5, silence: 0.0 },
        &mut phase,
        &oscillation,
    );
    assert_eq!(block[0], 0.5);
    assert!(block[1..].iter().all(|&s| s == 0.0));
}

#[test]
fn channel_id_uses_distinct_frequencies() {
    let block = fill(TestToneKind::ChannelId, 480, 2);
    let left = block[100 * 2];
    let right = block[100 * 2 + 1];
    assert!((left - right).abs() > 0.01);
}

#[test]
fn phase_keeps_waveform_continuous_across_blocks() {
    let mut phase = TonePhase { frame: 0 };
    let mut first = vec![0.0f32; 960];
    let mut second = vec![0.0f32; 960];
    let config = tone(TestToneKind::Sine);
    fill_block(&mut first, 2, &config, &mut phase, &oscillation);
    fill_block(&mut second, 2, &config, &mut phase, &oscillation);
    let expected_next = (2.0 * std::f64::consts::PI * 440.0 * 480.0 / 48_000.0).sin() as f32 * 0.5;
    assert!((second[0] - expected_next).abs() < 1e-3);
    assert_eq!(phase.frame, 960);
}
