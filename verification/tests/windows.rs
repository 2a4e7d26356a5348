use loopmaster::routing::EndpointId;
use loopmaster::windows::backend::{PairStep, WindowsAudioBackend};
use loopmaster::windows::conversion::{
    decode_to_stereo, encode_from_stereo, encoding, ConversionError, DecodeOps, EncodeOps, Weight,
    WeightSum,
};
use loopmaster::windows::endpoint::{
    decode_mix_format, EndpointFlow, EndpointFormat, ProcessInfo, WindowsAudioError,
    WindowsAudioFailureKind, AUDCLNT_E_DEVICE_INVALIDATED, AUDCLNT_E_ENDPOINT_CREATE_FAILED,
    AUDCLNT_E_SERVICE_NOT_RUNNING, AUDCLNT_E_SERVICE_NOT_RUNNING_LEGACY,
    HRESULT_ERROR_DEVICE_NOT_CONNECTED, HRESULT_ERROR_NOT_FOUND,
};
use loopmaster::windows::listing::{
    EndpointListing, ListEvent, ListStep, SessionEvent, SessionListing, SessionStep,
};
use loopmaster::windows::open::{
    advance_activity, ActivityStep, OpenEvent, OpenStep, StreamKind, StreamOpening,
    RPC_E_CHANGED_MODE,
};
use loopmaster::windows::process::{
    base64_encode, describe_process, icon_data_uri, process_icon_data_uri, ProcessList,
    ProcessLookup,
};
use loopmaster::windows::stream::{
    fill_buffer, BufferDefect, CaptureCall, CaptureDrain, CapturePacket, ProcessLoopbackSource,
    RenderPlan, ResamplerShape, WasapiCaptureSource, WasapiRenderSink,
};

#[test]
fn endpoint_flow_labels_are_stable() {
    assert_eq!(EndpointFlow::Capture.as_str(), "capture");
    assert_eq!(EndpointFlow::Render.display_name(), "Render");
}

#[test]
fn process_info_model_preserves_pid_and_optional_path() {
    let process = ProcessInfo {
        pid: 1234,
        name: "player.exe".to_owned(),
        executable_path: Some(r"C:\Player\player.exe".to_owned()),
    };
    assert_eq!(process.pid, 1234);
    assert_eq!(process.name, "player.exe");
    assert!(process.executable_path.is_some());
}

fn extensible() -> Vec<u8> {
    let mut raw = vec![0u8; 40];
    raw[0..2].copy_from_slice(&0xFFFEu16.to_le_bytes());
    raw[2..4].copy_from_slice(&2u16.to_le_bytes());
    raw[4..8].copy_from_slice(&48_000u32.to_le_bytes());
    raw[14..16].copy_from_slice(&32u16.to_le_bytes());
    raw[16..18].copy_from_slice(&22u16.to_le_bytes());
    raw[20..24].copy_from_slice(&0x3u32.to_le_bytes());
    raw
}

fn float_extensible() -> Vec<u8> {
    let mut raw = extensible();
    raw[24..40].copy_from_slice(&[
        0x03, 0x00, 0x00, 0x00, 0x00, 0x00, 0x10, 0x00, 0x80, 0x00, 0x00, 0xAA, 0x00, 0x38, 0x9B,
        0x71,
    ]);
    raw
}

#[test]
fn decodes_waveformat_extensible() {
    let f = decode_mix_format(&extensible()).unwrap();
    assert_eq!(
        (f.sample_rate, f.bits_per_sample, f.channels, f.channel_mask),
        (48_000, 32, 2, 3)
    );
    assert!(!f.is_float);
}

#[test]
fn identifies_ieee_float_extensible_subformat() {
    let f = decode_mix_format(&float_extensible()).unwrap();
    assert!(f.is_float);
    assert!(f.capture_compatible());
    assert!(f.render_compatible());
}

#[test]
fn identifies_plain_ieee_float_tag() {
    let mut raw = vec![0u8; 18];
    raw[0..2].copy_from_slice(&3u16.to_le_bytes());
    raw[2..4].copy_from_slice(&2u16.to_le_bytes());
    raw[4..8].copy_from_slice(&48_000u32.to_le_bytes());
    raw[14..16].copy_from_slice(&32u16.to_le_bytes());
    let f = decode_mix_format(&raw).unwrap();
    assert!(f.is_float);
    assert!(f.capture_compatible());
}

#[test]
fn distinguishes_capture_and_render_contracts() {
    let render_only = EndpointFormat {
        sample_rate: 44_100,
        bits_per_sample: 32,
        channels: 2,
        channel_mask: 0x3,
        is_float: true,
        is_pcm: false,
    };
    assert!(render_only.render_compatible());
    assert!(!render_only.capture_compatible());

    let pcm_16 = EndpointFormat {
        sample_rate: 48_000,
        bits_per_sample: 16,
        channels: 2,
        channel_mask: 0x3,
        is_float: false,
        is_pcm: false,
    };
    assert!(!pcm_16.capture_compatible());
    assert!(!pcm_16.render_compatible());
}

#[test]
fn rejects_truncated_mix_format() {
    let e = decode_mix_format(&[0u8; 17]).unwrap_err();
    assert!(matches!(e, WindowsAudioError::InvalidFormat { .. }));
}

#[test]
fn preserves_hresult_and_endpoint_id() {
    let e = WindowsAudioError::HResult {
        operation: "test",
        hresult: -2,
        endpoint_id: Some("endpoint-id".into()),
    };
    assert_eq!(e.hresult(), Some(-2));
    assert_eq!(e.endpoint_id(), Some("endpoint-id"));
}

#[test]
fn classifies_device_hresult_as_recoverable() {
    for hresult in [
        AUDCLNT_E_DEVICE_INVALIDATED,
        AUDCLNT_E_SERVICE_NOT_RUNNING,
        AUDCLNT_E_SERVICE_NOT_RUNNING_LEGACY,
        AUDCLNT_E_ENDPOINT_CREATE_FAILED,
        HRESULT_ERROR_DEVICE_NOT_CONNECTED,
        HRESULT_ERROR_NOT_FOUND,
    ] {
        let error = WindowsAudioError::HResult {
            operation: "test",
            hresult,
            endpoint_id: Some("endpoint-id".into()),
        };
        assert_eq!(
            error.failure_kind(),
            WindowsAudioFailureKind::DeviceUnavailable,
            "HRESULT=0x{hresult:08X}"
        );
        assert!(error.is_device_failure());
    }
}

#[test]
fn does_not_classify_unrelated_hresult_as_device_failure() {
    let error =
        WindowsAudioError::HResult { operation: "test", hresult: -2, endpoint_id: None };
    assert_eq!(error.failure_kind(), WindowsAudioFailureKind::Other);
    assert!(!error.is_device_failure());
}

#[test]
fn classifies_inactive_endpoint_state_as_device_failure() {
    let capture = WindowsAudioError::CaptureState {
        reason: "endpoint 不是 active 状态",
        endpoint_id: "capture-id".into(),
    };
    let render = WindowsAudioError::RenderState {
        reason: "endpoint 不是 active 状态",
        endpoint_id: "render-id".into(),
    };
    assert_eq!(capture.failure_kind(), WindowsAudioFailureKind::DeviceUnavailable);
    assert_eq!(render.failure_kind(), WindowsAudioFailureKind::DeviceUnavailable);
}

#[test]
fn keeps_other_capture_state_errors_non_recoverable() {
    let error = WindowsAudioError::CaptureState {
        reason: "GetBuffer 返回 0 frame",
        endpoint_id: "capture-id".into(),
    };
    assert_eq!(error.failure_kind(), WindowsAudioFailureKind::Other);
}

#[test]
fn render_errors_expose_endpoint_context() {
    let error = WindowsAudioError::RenderFormatUnsupported {
        endpoint_id: "render-id".to_owned(),
        sample_rate: 48_000,
        bits_per_sample: 16,
        channels: 2,
    };
    assert_eq!(error.hresult(), None);
    assert_eq!(error.endpoint_id(), Some("render-id"));
    assert!(error.message().contains("32-bit IEEE float"));
}

#[test]
fn capture_errors_expose_endpoint_context() {
    let error = WindowsAudioError::CaptureState {
        reason: "test",
        endpoint_id: "capture-id".to_owned(),
    };
    assert_eq!(error.hresult(), None);
    assert_eq!(error.endpoint_id(), Some("capture-id"));
}

#[test]
fn backend_is_explicitly_unsupported_off_windows() {
    assert!(matches!(
        WindowsAudioBackend::new(None),
        Err(WindowsAudioError::UnsupportedPlatform)
    ));
}

#[test]
fn render_open_is_explicitly_unsupported_off_windows() {
    let backend = WindowsAudioBackend::new(None);
    assert!(matches!(backend, Err(WindowsAudioError::UnsupportedPlatform)));
}

#[test]
fn zero_pid_is_rejected_before_platform_call() {
    let error = match ProcessLoopbackSource::open(0, Err(WindowsAudioError::UnsupportedPlatform)) {
        Ok(_) => panic!("zero pid must fail"),
        Err(error) => error,
    };
    assert!(matches!(
        error,
        WindowsAudioError::ProcessLoopbackInvalidPid { pid: 0 }
    ));
    assert!(matches!(
        ProcessLoopbackSource::open(7, Err(WindowsAudioError::UnsupportedPlatform)),
        Err(WindowsAudioError::UnsupportedPlatform)
    ));
}

fn format(bits: u16, channels: u16, is_float: bool, is_pcm: bool, mask: u32) -> EndpointFormat {
    EndpointFormat {
        sample_rate: 48_000,
        bits_per_sample: bits,
        channels,
        channel_mask: mask,
        is_float,
        is_pcm,
    }
}

fn weight_of(weight: Weight) -> f32 {
    match weight {
        Weight::Full => 1.0,
        Weight::Center => 0.707_106_77,
        Weight::Surround => 0.5,
    }
}

fn decode(
    native: EndpointFormat,
    input: &[u8],
    frames: usize,
    output: &mut [f32],
) -> Result<(), ConversionError> {
    let mut block: Vec<u32> = output.iter().map(|sample| sample.to_bits()).collect();
    let result = decode_to_stereo(
        native,
        input,
        frames,
        &mut block,
        &DecodeOps {
            pcm: |value: i16| (f32::from(value) / 32768.0).to_bits(),
            weigh: |sample: u32, weight: Weight| {
                (f32::from_bits(sample) * weight_of(weight)).to_bits()
            },
            add: |a: u32, b: u32| (f32::from_bits(a) + f32::from_bits(b)).to_bits(),
            normalize: |sample: u32, sum: WeightSum| {
                let mut total = 1.0f32;
                if sum.center {
                    total += weight_of(Weight::Center);
                }
                total += f32::from(sum.surrounds) * weight_of(Weight::Surround);
                (f32::from_bits(sample) / total.max(1.0)).to_bits()
            },
        },
    );
    for (sample, bits) in output.iter_mut().zip(block) {
        *sample = f32::from_bits(bits);
    }
    result
}

fn encode(
    native: EndpointFormat,
    input: &[f32],
    frames: usize,
    output: &mut [u8],
) -> Result<(), ConversionError> {
    let samples: Vec<u32> = input.iter().map(|sample| sample.to_bits()).collect();
    let mut bytes = output.to_vec();
    let result = encode_from_stereo(
        native,
        &samples,
        frames,
        &mut bytes,
        &EncodeOps {
            average: |a: u32, b: u32| ((f32::from_bits(a) + f32::from_bits(b)) * 0.5).to_bits(),
            quantize: |sample: u32| {
                (f32::from_bits(sample).clamp(-1.0, 0.999_969_5) * 32768.0).round() as i16
            },
        },
    );
    output.copy_from_slice(&bytes);
    result
}

#[test]
fn pcm16_mono_decodes_to_stereo() {
    let input = [0x00, 0x40, 0x00, 0xC0];
    let mut output = [0.0; 4];
    decode(format(16, 1, false, true, 0), &input, 2, &mut output).unwrap();
    assert!((output[0] - 0.5).abs() < 0.001);
    assert!((output[3] + 0.5).abs() < 0.001);
}

#[test]
fn stereo_round_trip_pcm16() {
    let source = [0.25, -0.5];
    let mut bytes = [0u8; 4];
    encode(format(16, 2, false, true, 3), &source, 1, &mut bytes).unwrap();
    let mut output = [0.0; 2];
    decode(format(16, 2, false, true, 3), &bytes, 1, &mut output).unwrap();
    assert!((output[0] - 0.25).abs() < 0.001);
    assert!((output[1] + 0.5).abs() < 0.001);
}

#[test]
fn a_stereo_block_comes_back_within_a_step() {
    let source = [0.25f32, -0.5, 1.0, -1.0, 0.123_456, 0.0, 1.5, -0.000_01];
    for mask in [0, 3] {
        let mut bytes = [0u8; 16];
        encode(format(16, 2, false, true, mask), &source, 4, &mut bytes).unwrap();
        let mut output = [0.0; 8];
        decode(format(16, 2, false, true, mask), &bytes, 4, &mut output).unwrap();
        for (written, read) in source.iter().zip(output) {
            assert!((written.clamp(-1.0, 1.0) - read).abs() <= 1.0 / 32_768.0);
        }
    }
}

fn float_bytes(samples: &[f32]) -> Vec<u8> {
    samples.iter().flat_map(|sample| sample.to_le_bytes()).collect()
}

#[test]
fn maskless_multichannel_input_uses_first_two_channels() {
    let native = format(32, 4, true, false, 0);
    let input = float_bytes(&[0.25f32, -0.5, 0.9, 0.8]);
    let mut output = [0.0; 2];
    decode(native, &input, 1, &mut output).unwrap();
    assert_eq!(output, [0.25, -0.5]);
}

#[test]
fn five_point_one_input_downmixes_without_lfe() {
    let native = format(32, 6, true, false, 0x3f);
    let input = float_bytes(&[0.5f32, -0.5, 0.25, 1.0, 0.25, -0.25]);
    let mut output = [0.0; 2];
    decode(native, &input, 1, &mut output).unwrap();
    assert!(output[0] > 0.35 && output[0] < 0.5);
    assert!(output[1] < -0.2 && output[1] > -0.5);
}

#[test]
fn five_point_one_output_only_populates_front_left_right() {
    let native = format(32, 6, true, false, 0x3f);
    let mut bytes = [0u8; 24];
    encode(native, &[0.25, -0.5], 1, &mut bytes).unwrap();
    let samples: Vec<f32> = bytes
        .chunks_exact(4)
        .map(|chunk| f32::from_le_bytes(chunk.try_into().unwrap()))
        .collect();
    assert_eq!(samples, [0.25, -0.5, 0.0, 0.0, 0.0, 0.0]);
}

#[test]
fn non_finite_samples_are_silenced_and_pcm_is_clipped() {
    let float = format(32, 2, true, false, 3);
    let input = float_bytes(&[f32::NAN, f32::INFINITY]);
    let mut decoded = [1.0; 2];
    decode(float, &input, 1, &mut decoded).unwrap();
    assert_eq!(decoded, [0.0, 0.0]);

    let pcm = format(16, 2, false, true, 3);
    let mut encoded = [0u8; 4];
    encode(pcm, &[2.0, -2.0], 1, &mut encoded).unwrap();
    assert_eq!(i16::from_le_bytes(encoded[0..2].try_into().unwrap()), i16::MAX);
    assert_eq!(i16::from_le_bytes(encoded[2..4].try_into().unwrap()), i16::MIN);

    let mut written = [0u8; 8];
    encode(float, &[2.0, f32::NAN], 1, &mut written).unwrap();
    assert_eq!(&written[..], &float_bytes(&[1.0, 0.0])[..]);
}

#[test]
fn mutually_conflicting_encoding_flags_are_rejected() {
    let invalid = format(32, 2, true, true, 3);
    assert_eq!(encoding(invalid), None);
    assert_eq!(
        decode(invalid, &[0; 8], 1, &mut [0.0; 2]),
        Err(ConversionError::UnsupportedFormat)
    );
}

#[test]
fn conversion_checks_both_lengths() {
    let float = format(32, 2, true, false, 3);
    assert_eq!(decode(float, &[0; 7], 1, &mut [0.0; 2]), Err(ConversionError::InputLength));
    assert_eq!(decode(float, &[0; 8], 1, &mut [0.0; 1]), Err(ConversionError::OutputLength));
    assert_eq!(encode(float, &[0.0], 1, &mut [0; 8]), Err(ConversionError::InputLength));
    assert_eq!(encode(float, &[0.0, 0.0], 1, &mut [0; 7]), Err(ConversionError::OutputLength));
}

fn opened(kind: StreamKind, raw: Vec<u8>) -> Result<StreamOpening, WindowsAudioError> {
    let mut opening = StreamOpening::endpoint(kind, &EndpointId("device".into()), 480);
    loop {
        let event = match opening.step() {
            OpenStep::InitializeCom => OpenEvent::Com { hresult: 0 },
            OpenStep::GetState => OpenEvent::State { active: true },
            OpenStep::GetDataFlow => OpenEvent::Flow {
                flow: match kind {
                    StreamKind::Capture => EndpointFlow::Capture,
                    _ => EndpointFlow::Render,
                },
            },
            OpenStep::GetMixFormat => OpenEvent::MixFormat { raw: Some(raw.clone()) },
            OpenStep::GetBufferSize => OpenEvent::BufferSize { frames: 960 },
            OpenStep::Opened => return Ok(opening),
            _ => OpenEvent::Done,
        };
        opening = opening.advance(event)?;
    }
}

#[test]
fn a_stream_opens_when_every_call_answers() {
    let id = EndpointId("device".into());
    let render = opened(StreamKind::Render, float_extensible()).unwrap();
    assert!(render.uninitialize_com());
    let sink = WasapiRenderSink::opened(&render, &id, 480).unwrap();
    assert_eq!(sink.buffer_frames(), 960);
    assert_eq!(sink.format().sample_rate, 48_000);
    assert_eq!(sink.endpoint_id(), &id);

    let capture = opened(StreamKind::Capture, float_extensible()).unwrap();
    let source = WasapiCaptureSource::opened(&capture, &id).unwrap();
    assert_eq!(source.buffer_frames(), 960);
    assert!(WasapiRenderSink::opened(&render, &id, 480).is_some());
}

#[test]
fn the_backend_is_connected_by_what_com_answered() {
    assert!(WindowsAudioBackend::new(Some(0)).unwrap().uninitialize_com());
    assert!(WindowsAudioBackend::new(Some(1)).unwrap().uninitialize_com());
    assert!(!WindowsAudioBackend::new(Some(RPC_E_CHANGED_MODE)).unwrap().uninitialize_com());
    assert!(matches!(
        WindowsAudioBackend::new(Some(-2_147_024_891)),
        Err(WindowsAudioError::ComInitialization { hresult: -2_147_024_891 })
    ));
}

#[test]
fn the_backend_hands_out_the_streams_that_were_opened() {
    let backend = WindowsAudioBackend::new(Some(0)).unwrap();
    let id = EndpointId("device".into());
    let render = opened(StreamKind::Render, float_extensible());
    let sink = backend.open_render_sink(&id, 480, render).unwrap();
    assert_eq!((sink.endpoint_id(), sink.buffer_frames(), sink.block_frames()), (&id, 960, 480));
    assert_eq!(sink.format(), decode_mix_format(&float_extensible()).unwrap());
    let capture = opened(StreamKind::Capture, float_extensible());
    let source = backend.open_capture_source(&id, capture).unwrap();
    assert_eq!((source.endpoint_id(), source.buffer_frames()), (&id, 960));
    let loopback = opened(StreamKind::DeviceLoopback, float_extensible());
    let source = backend.open_device_loopback_source(&id, loopback).unwrap();
    assert_eq!(source.format(), decode_mix_format(&float_extensible()).unwrap());
    let refused = || Err(WindowsAudioError::ComInitialization { hresult: -5 });
    let error = WindowsAudioError::ComInitialization { hresult: -5 };
    assert_eq!(backend.open_render_sink(&id, 480, refused()).unwrap_err(), error);
    assert_eq!(backend.open_capture_source(&id, refused()).unwrap_err(), error);
    assert_eq!(backend.open_device_loopback_source(&id, refused()).unwrap_err(), error);
}

#[test]
fn the_recording_of_a_process_is_opened_by_its_number() {
    let mut opening = StreamOpening::process(7).unwrap();
    while opening.step() != OpenStep::Opened {
        let event = match opening.step() {
            OpenStep::InitializeCom => OpenEvent::Com { hresult: 1 },
            OpenStep::WaitActivation | OpenStep::WaitCallback => OpenEvent::Wait { signaled: true },
            OpenStep::GetActivateResult => OpenEvent::Activated { hresult: 0, has_client: true },
            OpenStep::GetBufferSize => OpenEvent::BufferSize { frames: 960 },
            _ => OpenEvent::Done,
        };
        opening = opening.advance(event).unwrap();
    }
    let source = ProcessLoopbackSource::open(7, Ok(opening)).unwrap();
    assert_eq!(source.pid(), 7);
    assert_eq!((source.format().sample_rate, source.format().channels), (48_000, 2));
}

#[test]
fn a_pair_of_endpoints_is_asked_in_turn() {
    let backend = WindowsAudioBackend::new(Some(0)).unwrap();
    let (capture, render) = (EndpointId("microphone".into()), EndpointId("speaker".into()));
    assert_eq!(
        backend.are_endpoints_active(&capture, &render, None, None).unwrap(),
        PairStep::Ask { endpoint_id: capture.clone(), flow: EndpointFlow::Capture }
    );
    assert_eq!(
        backend.are_endpoints_active(&capture, &render, Some(Ok(true)), None).unwrap(),
        PairStep::Ask { endpoint_id: render.clone(), flow: EndpointFlow::Render }
    );
    let known = |active: bool| PairStep::Known { active };
    let ask = |first: bool, second: Option<Result<bool, WindowsAudioError>>| {
        backend.are_endpoints_active(&capture, &render, Some(Ok(first)), second)
    };
    assert_eq!(ask(false, None).unwrap(), known(false));
    assert_eq!(ask(false, Some(Ok(true))).unwrap(), known(false));
    assert_eq!(ask(true, Some(Ok(true))).unwrap(), known(true));
    assert_eq!(ask(true, Some(Ok(false))).unwrap(), known(false));
    let lost = || WindowsAudioError::ComInitialization { hresult: -5 };
    assert_eq!(ask(true, Some(Err(lost()))).unwrap_err(), lost());
    assert_eq!(
        backend.are_endpoints_active(&capture, &render, Some(Err(lost())), None).unwrap_err(),
        lost()
    );
}

#[test]
fn an_unsupported_format_ends_the_opening() {
    let mut raw = extensible();
    raw[14..16].copy_from_slice(&24u16.to_le_bytes());
    assert!(matches!(
        opened(StreamKind::Render, raw),
        Err(WindowsAudioError::RenderFormatUnsupported { .. })
    ));
}

#[test]
fn a_failed_call_names_the_operation() {
    let opening = StreamOpening::endpoint(StreamKind::Render, &EndpointId("device".into()), 480);
    let opening = opening.advance(OpenEvent::Com { hresult: 0 }).unwrap();
    let error = opening.advance(OpenEvent::Failed { hresult: -7 }).unwrap_err();
    assert_eq!(error.hresult(), Some(-7));
}

#[test]
fn activity_is_known_after_the_state_and_the_flow() {
    let id = EndpointId("device".into());
    let step = advance_activity(
        OpenStep::GetState,
        OpenEvent::State { active: false },
        &id,
        EndpointFlow::Render,
    )
    .unwrap();
    assert_eq!(step, ActivityStep::Known { active: false });

    let backend = WindowsAudioBackend::new(Some(0)).unwrap();
    let mut step = OpenStep::CreateEnumerator;
    let mut calls = Vec::new();
    let active = loop {
        calls.push(step);
        let event = match step {
            OpenStep::GetState => OpenEvent::State { active: true },
            OpenStep::GetDataFlow => OpenEvent::Flow { flow: EndpointFlow::Render },
            _ => OpenEvent::Done,
        };
        match backend.is_endpoint_active(&id, EndpointFlow::Render, step, event).unwrap() {
            ActivityStep::Call { step: next } => step = next,
            ActivityStep::Known { active } => break active,
        }
    };
    assert!(active);
    assert_eq!(
        calls,
        vec![
            OpenStep::CreateEnumerator,
            OpenStep::GetDevice,
            OpenStep::GetState,
            OpenStep::QueryEndpoint,
            OpenStep::GetDataFlow,
        ]
    );
}

fn sink() -> WasapiRenderSink {
    WasapiRenderSink {
        endpoint_id: EndpointId("device".into()),
        format: format(32, 2, true, false, 3),
        buffer_frames: 960,
        block_frames: 480,
    }
}

#[test]
fn a_render_block_is_planned_by_the_room_left() {
    let sink = sink();
    assert_eq!(sink.check_block(960).unwrap(), 480);
    assert!(sink.check_block(3).is_err());
    assert_eq!(sink.plan_write(480, 0, None).unwrap(), RenderPlan::Write { frames: 480 });
    assert_eq!(sink.plan_write(480, 960, None).unwrap(), RenderPlan::NoSpace);
    assert_eq!(
        sink.plan_write(480, 0, Some(ResamplerShape { input_frames: 480, output_frames: 441 }))
            .unwrap(),
        RenderPlan::Resample { input_frames: 480 }
    );
    assert_eq!(
        sink.plan_write(100, 0, Some(ResamplerShape { input_frames: 480, output_frames: 441 }))
            .unwrap(),
        RenderPlan::Resample { input_frames: 480 }
    );
    assert!(matches!(
        sink.plan_write(481, 0, Some(ResamplerShape { input_frames: 480, output_frames: 441 })),
        Err(WindowsAudioError::RenderBlockTooLarge { expected: 480, actual: 481 })
    ));
    assert_eq!(fill_buffer(&[1, 2], 2, 0), vec![1, 2, 0, 0]);
}

#[test]
fn a_capture_drain_counts_what_was_released() {
    let mut drain = CaptureDrain::new("device".into(), false);
    assert!(!drain.next_packet(Ok(0)).unwrap());
    assert!(drain.next_packet(Ok(480)).unwrap());
    assert_eq!(drain.next_packet(Err(-5)).unwrap_err().hresult(), Some(-5));
    let packet = drain.inspect_buffer(480, 0x3, true).unwrap();
    assert_eq!(
        packet,
        CapturePacket { frames: 480, silent: true, discontinuity: true, timestamp_error: false }
    );
    drain.packet_released(packet, Ok(())).unwrap();
    assert_eq!(drain.result.packets, 1);
    assert_eq!(drain.result.frames, 480);
    assert_eq!(drain.result.silent_packets, 1);
    assert_eq!(drain.result.discontinuities, 1);
    assert_eq!(drain.inspect_buffer(0, 0, true), Err(BufferDefect::Empty));
    assert_eq!(drain.inspect_buffer(4, 0, false), Err(BufferDefect::Missing));
    assert!(matches!(
        drain.buffer_rejected(BufferDefect::Empty, Ok(())),
        WindowsAudioError::CaptureState { .. }
    ));
    assert_eq!(drain.call_failed(CaptureCall::GetBuffer, -9).hresult(), Some(-9));
}

#[test]
fn processes_are_listed_once_and_named_by_their_file() {
    let list = ProcessList::new();
    assert!(!list.wants(0));
    let info = describe_process(7, ProcessLookup::Path(r"C:\Apps\player.exe".into())).unwrap();
    assert_eq!(info.name, "player.exe");
    let list = list.add(info);
    assert!(!list.wants(7));
    assert!(list.wants(8));
    let processes = list.into_processes();
    assert_eq!(processes.len(), 1);
    assert_eq!(processes[0].executable_path.as_deref(), Some(r"C:\Apps\player.exe"));
}

#[test]
fn icons_are_shown_as_data_addresses() {
    assert_eq!(base64_encode(b""), "");
    assert_eq!(base64_encode(b"f"), "Zg==");
    assert_eq!(base64_encode(b"fo"), "Zm8=");
    assert_eq!(base64_encode(b"foobar"), "Zm9vYmFy");
    assert_eq!(icon_data_uri(b"foo").as_deref(), Some("data:image/png;base64,Zm9v"));
    assert_eq!(
        process_icon_data_uri(Some(b"foo".to_vec())).as_deref(),
        Some("data:image/png;base64,Zm9v")
    );
    assert_eq!(process_icon_data_uri(Some(Vec::new())), None);
    assert_eq!(process_icon_data_uri(None), None);
}

fn list_device(listing: EndpointListing, id: &str, name: &str) -> EndpointListing {
    let replies = vec![
        ListEvent::Done,
        ListEvent::Id { id: Some(id.into()) },
        ListEvent::Done,
        ListEvent::Name { name: name.into() },
        ListEvent::Done,
        ListEvent::Done,
        ListEvent::MixFormat { raw: Some(extensible()) },
    ];
    replies.into_iter().fold(listing, |listing, reply| listing.advance(reply).unwrap())
}

#[test]
fn endpoints_that_play_are_listed_first() {
    let listing = EndpointListing::new().advance(ListEvent::Done).unwrap();
    assert_eq!(listing.step(), ListStep::EnumEndpoints { flow: EndpointFlow::Render });
    let listing = listing.advance(ListEvent::Done).unwrap();
    let listing = listing.advance(ListEvent::Count { count: 2 }).unwrap();
    assert_eq!(listing.step(), ListStep::GetItem { index: 0 });
    let listing = list_device(list_device(listing, "r0", "Speaker"), "r1", "");
    assert_eq!(listing.step(), ListStep::EnumEndpoints { flow: EndpointFlow::Capture });
    let listing = listing.advance(ListEvent::Done).unwrap();
    let listing = listing.advance(ListEvent::Count { count: 1 }).unwrap();
    let listing = list_device(listing, "c0", "Microphone");
    assert_eq!(listing.step(), ListStep::Listed);
    let backend = WindowsAudioBackend::new(Some(0)).unwrap();
    let endpoints = backend.enumerate_endpoints(Ok(listing)).unwrap();
    let listed: Vec<(&str, &str, EndpointFlow)> =
        endpoints.iter().map(|e| (e.id.0.as_str(), e.name.as_str(), e.flow)).collect();
    assert_eq!(
        listed,
        vec![
            ("r0", "Speaker", EndpointFlow::Render),
            ("r1", "r1", EndpointFlow::Render),
            ("c0", "Microphone", EndpointFlow::Capture),
        ]
    );
    assert_eq!(
        endpoints[0].endpoint_format().unwrap(),
        decode_mix_format(&extensible()).unwrap()
    );
}

#[test]
fn a_failed_listing_names_the_call_and_the_endpoint() {
    let failed = EndpointListing::new().advance(ListEvent::Failed { hresult: -1 });
    assert_eq!(
        failed.unwrap_err(),
        WindowsAudioError::HResult {
            operation: "CoCreateInstance(MMDeviceEnumerator)",
            hresult: -1,
            endpoint_id: None,
        }
    );
    let item = || {
        let listing = EndpointListing::new().advance(ListEvent::Done).unwrap();
        let listing = listing.advance(ListEvent::Done).unwrap();
        let listing = listing.advance(ListEvent::Count { count: 1 }).unwrap();
        listing.advance(ListEvent::Done).unwrap()
    };
    assert_eq!(
        item().advance(ListEvent::Id { id: None }).unwrap_err(),
        WindowsAudioError::InvalidFormat {
            reason: "IMMDevice::GetId 返回空指针".into(),
            endpoint_id: None,
        }
    );
    let named = item().advance(ListEvent::Id { id: Some("r0".into()) }).unwrap();
    assert_eq!(
        named.advance(ListEvent::Failed { hresult: -2 }).unwrap_err(),
        WindowsAudioError::HResult {
            operation: "IMMDevice::OpenPropertyStore",
            hresult: -2,
            endpoint_id: Some("r0".into()),
        }
    );
}

#[test]
fn an_endpoint_without_a_readable_format_is_listed() {
    let format_due = || {
        let replies = vec![
            ListEvent::Done,
            ListEvent::Done,
            ListEvent::Count { count: 1 },
            ListEvent::Done,
            ListEvent::Id { id: Some("r0".into()) },
            ListEvent::Done,
            ListEvent::Name { name: "Speaker".into() },
            ListEvent::Done,
        ];
        let fresh = EndpointListing::new();
        replies.into_iter().fold(fresh, |listing, reply| listing.advance(reply).unwrap())
    };
    assert_eq!(format_due().step(), ListStep::ActivateClient);
    let without_client = format_due().advance(ListEvent::Failed { hresult: -3 }).unwrap();
    let asked = || format_due().advance(ListEvent::Done).unwrap();
    let without_format = asked().advance(ListEvent::Failed { hresult: -4 }).unwrap();
    let missing = asked().advance(ListEvent::MixFormat { raw: None }).unwrap();
    let broken = asked().advance(ListEvent::MixFormat { raw: Some(vec![1, 2]) }).unwrap();
    for listing in [without_client, without_format, missing, broken] {
        assert_eq!(listing.step(), ListStep::EnumEndpoints { flow: EndpointFlow::Capture });
        let endpoints = listing.into_endpoints();
        assert_eq!(endpoints.len(), 1);
        assert_eq!(endpoints[0].name, "Speaker");
        assert_eq!(endpoints[0].format, None);
        assert_eq!(endpoints[0].is_float, None);
    }
}

#[test]
fn processes_are_listed_from_their_sessions() {
    let mut listing = SessionListing::new();
    let pids = [Some(9), Some(0), None, Some(9), Some(4), Some(7)];
    let mut looked_up = Vec::new();
    while listing.step() != SessionStep::Listed {
        let reply = match listing.step() {
            SessionStep::GetCount => SessionEvent::Count { count: 1 },
            SessionStep::GetId => SessionEvent::Id { id: Some("r0".into()) },
            SessionStep::CountSessions => SessionEvent::Count { count: 6 },
            SessionStep::GetSession { index } => {
                SessionEvent::Session { pid: pids[index as usize] }
            }
            SessionStep::LookUp { pid } => {
                looked_up.push(pid);
                SessionEvent::Found(if pid == 7 {
                    ProcessLookup::Failed { code: 0x8007_0057 }
                } else {
                    ProcessLookup::Path(format!("C:\\{pid}.exe"))
                })
            }
            _ => SessionEvent::Done,
        };
        listing = match listing.advance(reply) {
            Ok(listing) => listing,
            Err(error) => panic!("{error:?}"),
        };
    }
    assert_eq!(looked_up, vec![9, 4, 7]);
    let backend = WindowsAudioBackend::new(Some(0)).unwrap();
    let refused = WindowsAudioError::ComInitialization { hresult: -5 };
    assert_eq!(backend.enumerate_processes(Err(refused)).unwrap_err().hresult(), Some(-5));
    let processes = backend.enumerate_processes(Ok(listing)).unwrap();
    let names: Vec<String> = processes.into_iter().map(|p| p.name).collect();
    assert_eq!(names, vec!["4.exe".to_owned(), "9.exe".to_owned()]);
}

