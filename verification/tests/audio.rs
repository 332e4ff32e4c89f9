use dictaphile::audio::{expire_status, is_too_short, samples_to_wav, LlmReply, Pipeline,
    PipelineAction, PipelineEvent, Stage};

fn header_u32(wav: &[u8], offset: usize) -> u32 {
    u32::from_le_bytes(wav[offset..offset + 4].try_into().unwrap())
}

const SAMPLE_RATE: u32 = 16_000;

#[test]
fn empty_samples_is_valid() {
    let wav = samples_to_wav(&[], SAMPLE_RATE).unwrap();
    assert_eq!(&wav[0..4], b"RIFF");
    assert_eq!(header_u32(&wav, 40), 0);
}

#[test]
fn single_sample_has_correct_data_size() {
    let wav = samples_to_wav(&[1000i16], SAMPLE_RATE).unwrap();
    assert_eq!(header_u32(&wav, 40), 2); // 1 sample × 2 bytes (i16)
}

#[test]
fn samples_round_trip() {
    let recorded: Vec<i16> = (0..64).map(|i| (i * 100) as i16).collect();
    let wav = samples_to_wav(&recorded, SAMPLE_RATE).unwrap();
    let mut reader = hound::WavReader::new(std::io::Cursor::new(wav)).unwrap();
    let decoded: Vec<i16> = reader.samples::<i16>().map(|s| s.unwrap()).collect();
    assert_eq!(decoded, recorded);
}

#[test]
fn wav_header_is_exact() {
    let wav = samples_to_wav(&[1, -2], 8_000).unwrap();
    let expected: Vec<u8> = [
        &b"RIFF"[..], &40u32.to_le_bytes(), b"WAVE", b"fmt ", &16u32.to_le_bytes(),
        &1u16.to_le_bytes(), &1u16.to_le_bytes(), &8_000u32.to_le_bytes(),
        &16_000u32.to_le_bytes(), &2u16.to_le_bytes(), &16u16.to_le_bytes(), b"data",
        &4u32.to_le_bytes(), &[1u8, 0, 0xFE, 0xFF],
    ]
    .concat();
    assert_eq!(wav, expected);
}

#[test]
fn too_short_is_detected() {
    assert!(is_too_short(&vec![0i16; SAMPLE_RATE as usize / 2 - 1], SAMPLE_RATE));
}

#[test]
fn at_threshold_is_accepted() {
    assert!(!is_too_short(&vec![0i16; SAMPLE_RATE as usize / 2], SAMPLE_RATE));
}

#[test]
fn threshold_scales_with_sample_rate() {
    let rate = 48_000u32;
    assert!(is_too_short(&vec![0i16; rate as usize / 2 - 1], rate));
    assert!(!is_too_short(&vec![0i16; rate as usize / 2], rate));
}

#[test]
fn zero_samples_is_too_short() {
    assert!(is_too_short(&[], SAMPLE_RATE));
}

fn fail_parts(a: PipelineAction) -> (String, String) {
    match a {
        PipelineAction::Fail { label, detail } => (label, detail),
        _ => panic!("expected a failure"),
    }
}

#[test]
fn short_recording_fails_without_transcribing() {
    let (p, a) = Pipeline::begin(&[0i16; 10], SAMPLE_RATE, false, "P: ".to_string());
    assert_eq!(p.stage, Stage::Finished);
    assert_eq!(fail_parts(a), ("Recording too short".to_string(), "recording too short".to_string()));
}

#[test]
fn passthrough_run_pastes_trimmed_transcript() {
    let samples = vec![7i16; 8_000];
    let (p, a) = Pipeline::begin(&samples, SAMPLE_RATE, true, "P: ".to_string());
    match a {
        PipelineAction::Transcribe(wav) => assert_eq!(wav, samples_to_wav(&samples, SAMPLE_RATE).unwrap()),
        _ => panic!("expected transcription"),
    }
    let (p, a) = p.on_event(PipelineEvent::Transcribed(Ok("  hello world \n".to_string())));
    assert_eq!(p.stage, Stage::Pasting);
    match a {
        PipelineAction::Paste(t) => assert_eq!(t, "hello world"),
        _ => panic!("expected paste"),
    }
    let (p, a) = p.on_event(PipelineEvent::Pasted(Ok(())));
    assert_eq!(p.stage, Stage::Finished);
    assert!(matches!(a, PipelineAction::Finish));
}

#[test]
fn distilled_run_sends_prompt_then_transcript() {
    let samples = vec![7i16; 8_000];
    let (p, _) = Pipeline::begin(&samples, SAMPLE_RATE, false, "Fix: ".to_string());
    let (p, a) = p.on_event(PipelineEvent::Transcribed(Ok(" some text ".to_string())));
    match a {
        PipelineAction::Distill { status, request } => {
            assert_eq!(status, "Distilling...");
            assert_eq!(request, "Fix: some text");
        }
        _ => panic!("expected distillation"),
    }
    let (p, a) = p.on_event(PipelineEvent::Distilled(LlmReply::Response("\tSome text.\n".to_string())));
    match a {
        PipelineAction::Paste(t) => assert_eq!(t, "Some text."),
        _ => panic!("expected paste"),
    }
    let (_, a) = p.on_event(PipelineEvent::Pasted(Err("no focus".to_string())));
    assert_eq!(fail_parts(a), ("Paste failed".to_string(), "no focus".to_string()));
}

#[test]
fn pipeline_failures_carry_their_labels() {
    let samples = vec![7i16; 8_000];
    let (p, _) = Pipeline::begin(&samples, SAMPLE_RATE, false, String::new());
    let (p2, a) = p.on_event(PipelineEvent::Transcribed(Err("refused".to_string())));
    assert_eq!(p2.stage, Stage::Finished);
    assert_eq!(fail_parts(a), ("Transcription failed".to_string(), "refused".to_string()));

    let (p, _) = Pipeline::begin(&samples, SAMPLE_RATE, false, String::new());
    let (p, _) = p.on_event(PipelineEvent::Transcribed(Ok("x".to_string())));
    let (_, a) = p.on_event(PipelineEvent::Distilled(LlmReply::ServiceError("model not found".to_string())));
    assert_eq!(fail_parts(a), ("Distillation failed".to_string(), "llm: model not found".to_string()));

    let (p, _) = Pipeline::begin(&samples, SAMPLE_RATE, false, String::new());
    let (p, _) = p.on_event(PipelineEvent::Transcribed(Ok("x".to_string())));
    let (_, a) = p.on_event(PipelineEvent::Distilled(LlmReply::RequestFailed("timeout".to_string())));
    assert_eq!(fail_parts(a), ("Distillation failed".to_string(), "timeout".to_string()));
}

#[test]
fn expired_status_is_cleared_only_if_unchanged() {
    let mut s = Some("Test error".to_string());
    expire_status(&mut s, "Test error");
    assert_eq!(s, None);
    let mut s = Some("Recording...".to_string());
    expire_status(&mut s, "Test error");
    assert_eq!(s.as_deref(), Some("Recording..."));
    let mut s: Option<String> = None;
    expire_status(&mut s, "Test error");
    assert_eq!(s, None);
}
