//! Recording checks, WAV framing of the recorded samples, and the decisions of
//! the transcribe-distil-paste pipeline.
use vstd::prelude::*;
use crate::text::{chars_of, push_all, string_of, trim, trim_str, same_chars};

verus! {

#[verifier::external_type_specification]
#[verifier::external_body]
pub struct ExHoundError(hound::Error);

/// A recording is too short to transcribe when it lasts under half a second.
pub open spec fn too_short(sample_count: int, sample_rate: u32) -> bool {
    sample_count < sample_rate / 2
}

/// Whether `samples` at `sample_rate` last under half a second.
pub fn is_too_short(samples: &[i16], sample_rate: u32) -> (r: bool)
    ensures
        r == too_short(samples@.len() as int, sample_rate),
{
    samples.len() < (sample_rate / 2) as usize
}

/// `x` as two little-endian bytes.
pub open spec fn le16(x: int) -> Seq<u8> {
    seq![(x % 0x100) as u8, ((x / 0x100) % 0x100) as u8]
}

/// `x` as four little-endian bytes.
pub open spec fn le32(x: int) -> Seq<u8> {
    seq![
        (x % 0x100) as u8,
        ((x / 0x100) % 0x100) as u8,
        ((x / 0x1_0000) % 0x100) as u8,
        ((x / 0x100_0000) % 0x100) as u8,
    ]
}

/// The samples as 16-bit little-endian two's complement.
pub open spec fn pcm16_bytes(samples: Seq<i16>) -> Seq<u8>
    decreases samples.len(),
{
    if samples.len() == 0 {
        Seq::<u8>::empty()
    } else {
        pcm16_bytes(samples.drop_last()) + le16((samples.last() as u16) as int)
    }
}

/// A RIFF/WAVE file holding `samples` as 16-bit integer PCM, one channel, at
/// `sample_rate`: the 44-byte header (chunk sizes, `PCMWAVEFORMAT` with format tag 1,
/// byte rate `2 * sample_rate`, block align 2, 16 bits per sample), then the data.
pub open spec fn wav_pcm16_mono(samples: Seq<i16>, sample_rate: u32) -> Seq<u8> {
    let data_len: int = 2 * (samples.len() as int);
    seq![0x52u8, 0x49, 0x46, 0x46] + le32(36 + data_len) + seq![0x57u8, 0x41, 0x56, 0x45] + seq![
        0x66u8,
        0x6D,
        0x74,
        0x20,
    ] + le32(16) + le16(1) + le16(1) + le32(sample_rate as int) + le32(2 * sample_rate) + le16(2)
        + le16(16) + seq![0x64u8, 0x61, 0x74, 0x61] + le32(data_len) + pcm16_bytes(samples)
}

/// The limits within which hound frames a mono 16-bit recording: a non-zero rate
/// whose byte rate fits in a `u32`, and a file size that fits in a `u32`.
pub open spec fn wav_encodable(sample_count: int, sample_rate: u32) -> bool {
    &&& 1 <= sample_rate <= u32::MAX / 2
    &&& 2 * sample_count + 36 <= u32::MAX
}

/// Whether a recording of `sample_count` samples at `sample_rate` is within the
/// limits of `wav_encodable`.
pub fn can_encode_wav(sample_count: usize, sample_rate: u32) -> (r: bool)
    ensures
        r == wav_encodable(sample_count as int, sample_rate),
{
    1 <= sample_rate && sample_rate <= u32::MAX / 2 && sample_count as u128 * 2 + 36
        <= u32::MAX as u128
}

/// Writes the samples with hound: `WavWriter::new` on an in-memory
/// `Cursor<Vec<u8>>` with an integer-sample `WavSpec` of these channels, rate and bits,
/// `write_sample` for each sample in order, then `finalize`, and returns the bytes.
/// Per hound's source this writes the 44-byte `PCMWAVEFORMAT` header (sizes filled in
/// by `finalize`) and each sample as a little-endian `i16`; its errors come from an
/// unsupported bit depth (16 is supported), an unfinished multi-channel frame (one
/// channel here) or the writer, and writing to a growing in-memory cursor does not
/// fail, so the call succeeds. Outside the limits of `wav_encodable` hound divides by
/// zero or overflows a `u32`.
#[verifier::external_body]
fn hound_encode_pcm(samples: &[i16], channels: u16, sample_rate: u32, bits_per_sample: u16) -> (r: Result<Vec<u8>, hound::Error>)
    requires
        channels == 1,
        bits_per_sample == 16,
        wav_encodable(samples@.len() as int, sample_rate),
    ensures
        r is Ok,
        r is Ok ==> r->Ok_0@ == wav_pcm16_mono(samples@, sample_rate),
{
    let spec = hound::WavSpec {
        channels,
        sample_rate,
        bits_per_sample,
        sample_format: hound::SampleFormat::Int,
    };
    let mut buf = std::io::Cursor::new(Vec::<u8>::new());
    let mut w = hound::WavWriter::new(&mut buf, spec)?;
    for &s in samples {
        w.write_sample(s)?;
    }
    w.finalize()?;
    Ok(buf.into_inner())
}

/// Describes a hound error (`Display`).
#[verifier::external_body]
fn describe_hound_error(e: &hound::Error) -> String {
    format!("{e}")
}

/// Why a recording could not be framed as WAV.
#[derive(Debug)]
pub struct WavError {
    pub message: String,
}

/// The recording as a one-channel, 16-bit WAV file.
pub fn samples_to_wav(samples: &[i16], sample_rate: u32) -> (r: Result<Vec<u8>, WavError>)
    requires
        wav_encodable(samples@.len() as int, sample_rate),
    ensures
        r matches Ok(b) && b@ == wav_pcm16_mono(samples@, sample_rate),
{
    match hound_encode_pcm(samples, 1, sample_rate, 16) {
        Ok(b) => Ok(b),
        Err(e) => Err(WavError { message: describe_hound_error(&e) }),
    }
}

/// Clears the status `label` once its display time is over, unless another status
/// has replaced it meanwhile.
pub fn expire_status(status: &mut Option<String>, label: &str)
    ensures
        match *old(status) {
            Some(s) => if s@ == label@ {
                *final(status) == None::<String>
            } else {
                *final(status) == *old(status)
            },
            None => *final(status) == None::<String>,
        },
{
    let clear = match status {
        Some(s) => {
            let a = chars_of(s.as_str());
            let b = chars_of(label);
            same_chars(a.as_slice(), b.as_slice())
        },
        None => false,
    };
    if clear {
        *status = None;
    }
}


/// Where a pipeline run stands.
#[derive(Clone, Copy, Debug, PartialEq, Eq, Structural)]
pub enum Stage {
    /// Waiting for the transcription service.
    Transcribing,
    /// Waiting for the language model.
    Distilling,
    /// Waiting for the text to be pasted.
    Pasting,
    /// Nothing more to do.
    Finished,
}

/// One run of the pipeline for one recording.
pub struct Pipeline {
    /// Paste the transcript as it is, without the language model.
    pub passthrough: bool,
    /// The active mode's prompt, put before the transcript.
    pub prompt: String,
    pub stage: Stage,
}

/// What the language model service answered.
pub enum LlmReply {
    /// The generated text.
    Response(String),
    /// The service's own error message.
    ServiceError(String),
    /// The request failed (connection, HTTP, undecodable reply): a description.
    RequestFailed(String),
}

/// The outcome of the outside work that the last action asked for.
pub enum PipelineEvent {
    /// The transcription service's text, or a description of the failure.
    Transcribed(Result<String, String>),
    Distilled(LlmReply),
    /// Whether the text was typed, or a description of the failure.
    Pasted(Result<(), String>),
}

/// What the caller is to do next.
pub enum PipelineAction {
    /// Send this WAV file to the transcription service.
    Transcribe(Vec<u8>),
    /// Show `status` and send `request` to the language model.
    Distill { status: String, request: String },
    /// Type this text where the cursor is.
    Paste(String),
    /// Done: clear the status.
    Finish,
    /// Stop: show `label` briefly and log `detail`.
    Fail { label: String, detail: String },
}

/// The view of an event.
pub enum EventSpec {
    Transcribed(Result<Seq<char>, Seq<char>>),
    Response(Seq<char>),
    ServiceError(Seq<char>),
    RequestFailed(Seq<char>),
    Pasted(Result<(), Seq<char>>),
}

/// The view of an action.
pub enum ActionSpec {
    Transcribe(Seq<u8>),
    Distill(Seq<char>, Seq<char>),
    Paste(Seq<char>),
    Finish,
    Fail(Seq<char>, Seq<char>),
}

impl View for Pipeline {
    type V = (bool, Seq<char>, Stage);

    open spec fn view(&self) -> (bool, Seq<char>, Stage) {
        (self.passthrough, self.prompt@, self.stage)
    }
}

impl View for PipelineEvent {
    type V = EventSpec;

    open spec fn view(&self) -> EventSpec {
        match self {
            PipelineEvent::Transcribed(Ok(t)) => EventSpec::Transcribed(Ok(t@)),
            PipelineEvent::Transcribed(Err(d)) => EventSpec::Transcribed(Err(d@)),
            PipelineEvent::Distilled(LlmReply::Response(t)) => EventSpec::Response(t@),
            PipelineEvent::Distilled(LlmReply::ServiceError(e)) => EventSpec::ServiceError(e@),
            PipelineEvent::Distilled(LlmReply::RequestFailed(d)) => EventSpec::RequestFailed(d@),
            PipelineEvent::Pasted(Ok(())) => EventSpec::Pasted(Ok(())),
            PipelineEvent::Pasted(Err(d)) => EventSpec::Pasted(Err(d@)),
        }
    }
}

impl View for PipelineAction {
    type V = ActionSpec;

    open spec fn view(&self) -> ActionSpec {
        match self {
            PipelineAction::Transcribe(w) => ActionSpec::Transcribe(w@),
            PipelineAction::Distill { status, request } => ActionSpec::Distill(status@, request@),
            PipelineAction::Paste(t) => ActionSpec::Paste(t@),
            PipelineAction::Finish => ActionSpec::Finish,
            PipelineAction::Fail { label, detail } => ActionSpec::Fail(label@, detail@),
        }
    }
}

/// The event answers the work that the stage waits for.
pub open spec fn event_fits(stage: Stage, ev: EventSpec) -> bool {
    match stage {
        Stage::Transcribing => ev is Transcribed,
        Stage::Distilling => ev is Response || ev is ServiceError || ev is RequestFailed,
        Stage::Pasting => ev is Pasted,
        Stage::Finished => false,
    }
}

/// The first step of a run: a recording under half a second is refused; any other
/// is framed as WAV and sent for transcription.
pub open spec fn begin_spec(samples: Seq<i16>, sample_rate: u32, passthrough: bool, prompt: Seq<
    char,
>) -> ((bool, Seq<char>, Stage), ActionSpec) {
    if too_short(samples.len() as int, sample_rate) {
        (
            (passthrough, prompt, Stage::Finished),
            ActionSpec::Fail("Recording too short"@, "recording too short"@),
        )
    } else {
        (
            (passthrough, prompt, Stage::Transcribing),
            ActionSpec::Transcribe(wav_pcm16_mono(samples, sample_rate)),
        )
    }
}

/// One step of a run. The transcript is trimmed; in passthrough mode it is pasted,
/// otherwise the prompt followed by it goes to the language model, whose trimmed
/// answer is pasted. Every failure ends the run with its own label.
pub open spec fn step_spec(p: (bool, Seq<char>, Stage), ev: EventSpec) -> (
    (bool, Seq<char>, Stage),
    ActionSpec,
) {
    let (passthrough, prompt, _stage) = p;
    match ev {
        EventSpec::Transcribed(Err(d)) => (
            (passthrough, prompt, Stage::Finished),
            ActionSpec::Fail("Transcription failed"@, d),
        ),
        EventSpec::Transcribed(Ok(raw)) => if passthrough {
            ((passthrough, prompt, Stage::Pasting), ActionSpec::Paste(trim(raw)))
        } else {
            (
                (passthrough, prompt, Stage::Distilling),
                ActionSpec::Distill("Distilling..."@, prompt + trim(raw)),
            )
        },
        EventSpec::Response(t) => ((passthrough, prompt, Stage::Pasting), ActionSpec::Paste(trim(t))),
        EventSpec::ServiceError(e) => (
            (passthrough, prompt, Stage::Finished),
            ActionSpec::Fail("Distillation failed"@, "llm: "@ + e),
        ),
        EventSpec::RequestFailed(d) => (
            (passthrough, prompt, Stage::Finished),
            ActionSpec::Fail("Distillation failed"@, d),
        ),
        EventSpec::Pasted(Ok(())) => ((passthrough, prompt, Stage::Finished), ActionSpec::Finish),
        EventSpec::Pasted(Err(d)) => (
            (passthrough, prompt, Stage::Finished),
            ActionSpec::Fail("Paste failed"@, d),
        ),
    }
}

/// Concatenation of two texts.
fn concat(a: &str, b: &str) -> (r: String)
    ensures
        r@ == a@ + b@,
{
    let mut v = chars_of(a);
    let w = chars_of(b);
    push_all(&mut v, w.as_slice());
    string_of(v.as_slice())
}

impl Pipeline {
    /// Starts a run for a finished recording (see `begin_spec`).
    pub fn begin(samples: &[i16], sample_rate: u32, passthrough: bool, prompt: String) -> (r: (
        Pipeline,
        PipelineAction,
    ))
        requires
            too_short(samples@.len() as int, sample_rate) || wav_encodable(
                samples@.len() as int,
                sample_rate,
            ),
        ensures
            (r.0@, r.1@) == begin_spec(samples@, sample_rate, passthrough, prompt@),
    {
        if is_too_short(samples, sample_rate) {
            return (
                Pipeline { passthrough, prompt, stage: Stage::Finished },
                PipelineAction::Fail {
                    label: "Recording too short".to_owned(),
                    detail: "recording too short".to_owned(),
                },
            );
        }
        match samples_to_wav(samples, sample_rate) {
            Ok(wav) => (
                Pipeline { passthrough, prompt, stage: Stage::Transcribing },
                PipelineAction::Transcribe(wav),
            ),
            Err(e) => (
                Pipeline { passthrough, prompt, stage: Stage::Finished },
                PipelineAction::Fail { label: "Recording error".to_owned(), detail: e.message },
            ),
        }
    }

    /// Advances the run with the outcome of the last action (see `step_spec`).
    pub fn on_event(self, ev: PipelineEvent) -> (r: (Pipeline, PipelineAction))
        requires
            event_fits(self.stage, ev@),
        ensures
            (r.0@, r.1@) == step_spec(self@, ev@),
    {
        let Pipeline { passthrough, prompt, stage: _ } = self;
        match ev {
            PipelineEvent::Transcribed(Err(d)) => (
                Pipeline { passthrough, prompt, stage: Stage::Finished },
                PipelineAction::Fail { label: "Transcription failed".to_owned(), detail: d },
            ),
            PipelineEvent::Transcribed(Ok(raw)) => {
                let t = trim_str(raw.as_str());
                if passthrough {
                    (
                        Pipeline { passthrough, prompt, stage: Stage::Pasting },
                        PipelineAction::Paste(t),
                    )
                } else {
                    let request = concat(prompt.as_str(), t.as_str());
                    (
                        Pipeline { passthrough, prompt, stage: Stage::Distilling },
                        PipelineAction::Distill { status: "Distilling...".to_owned(), request },
                    )
                }
            },
            PipelineEvent::Distilled(LlmReply::Response(text)) => {
                let t = trim_str(text.as_str());
                (Pipeline { passthrough, prompt, stage: Stage::Pasting }, PipelineAction::Paste(t))
            },
            PipelineEvent::Distilled(LlmReply::ServiceError(e)) => {
                let detail = concat("llm: ", e.as_str());
                (
                    Pipeline { passthrough, prompt, stage: Stage::Finished },
                    PipelineAction::Fail { label: "Distillation failed".to_owned(), detail },
                )
            },
            PipelineEvent::Distilled(LlmReply::RequestFailed(d)) => (
                Pipeline { passthrough, prompt, stage: Stage::Finished },
                PipelineAction::Fail { label: "Distillation failed".to_owned(), detail: d },
            ),
            PipelineEvent::Pasted(Ok(())) => (
                Pipeline { passthrough, prompt, stage: Stage::Finished },
                PipelineAction::Finish,
            ),
            PipelineEvent::Pasted(Err(d)) => (
                Pipeline { passthrough, prompt, stage: Stage::Finished },
                PipelineAction::Fail { label: "Paste failed".to_owned(), detail: d },
            ),
        }
    }
}


/// How many more events a run can take from a stage.
pub open spec fn stage_rank(s: Stage) -> int {
    match s {
        Stage::Transcribing => 3,
        Stage::Distilling => 2,
        Stage::Pasting => 1,
        Stage::Finished => 0,
    }
}

/// A WAV file starts with `RIFF`, records the file size after the first eight bytes
/// at offset 4 and the data size (two bytes per sample) at offset 40, and its data
/// starts at offset 44.
pub proof fn law_wav_header_fields(samples: Seq<i16>, sample_rate: u32)
    ensures
        wav_pcm16_mono(samples, sample_rate).subrange(0, 4) == seq![0x52u8, 0x49, 0x46, 0x46],
        wav_pcm16_mono(samples, sample_rate).subrange(4, 8) == le32(36 + 2 * (samples.len() as int)),
        wav_pcm16_mono(samples, sample_rate).subrange(40, 44) == le32(2 * (samples.len() as int)),
        wav_pcm16_mono(samples, sample_rate).skip(44) == pcm16_bytes(samples),
        wav_pcm16_mono(samples, sample_rate).len() == 44 + pcm16_bytes(samples).len(),
{
    let w = wav_pcm16_mono(samples, sample_rate);
    assert(w.subrange(0, 4) =~= seq![0x52u8, 0x49, 0x46, 0x46]);
    assert(w.subrange(4, 8) =~= le32(36 + 2 * (samples.len() as int)));
    assert(w.subrange(40, 44) =~= le32(2 * (samples.len() as int)));
    assert(w.skip(44) =~= pcm16_bytes(samples));
}

/// Two bytes per sample follow the header.
pub proof fn law_pcm16_length(samples: Seq<i16>)
    ensures
        pcm16_bytes(samples).len() == 2 * samples.len(),
    decreases samples.len(),
{
    if samples.len() > 0 {
        law_pcm16_length(samples.drop_last());
    }
}

/// In passthrough mode the language model is never asked.
pub proof fn law_passthrough_never_distills(p: (bool, Seq<char>, Stage), ev: EventSpec)
    requires
        p.0,
        event_fits(p.2, ev),
    ensures
        !(step_spec(p, ev).1 is Distill),
{
}

/// Every step moves a run closer to its end, so a run takes at most three events
/// after it begins; it ends exactly when the step finishes or fails, and keeps its
/// mode and prompt throughout.
pub proof fn law_runs_progress(p: (bool, Seq<char>, Stage), ev: EventSpec)
    requires
        event_fits(p.2, ev),
    ensures
        stage_rank(step_spec(p, ev).0.2) < stage_rank(p.2),
        (step_spec(p, ev).0.2 == Stage::Finished) == (step_spec(p, ev).1 is Finish || step_spec(
            p,
            ev,
        ).1 is Fail),
        step_spec(p, ev).0.0 == p.0 && step_spec(p, ev).0.1 == p.1,
{
}

/// Whether a recording is sent for transcription depends on its length alone, not
/// on the mode: a recording of at least half a second (`sample_rate / 2` samples)
/// is framed as WAV and sent, with or without passthrough and whatever the prompt;
/// a shorter one is refused and the run ends.
pub proof fn law_transcription_depends_on_length_alone(
    samples: Seq<i16>,
    sample_rate: u32,
    passthrough: bool,
    prompt: Seq<char>,
    other_prompt: Seq<char>,
)
    ensures
        (samples.len() >= sample_rate / 2) ==> begin_spec(samples, sample_rate, passthrough, prompt)
            == ((passthrough, prompt, Stage::Transcribing), ActionSpec::Transcribe(
            wav_pcm16_mono(samples, sample_rate),
        )),
        (samples.len() < sample_rate / 2) ==> (begin_spec(
            samples,
            sample_rate,
            passthrough,
            prompt,
        ).1 is Fail && begin_spec(samples, sample_rate, passthrough, prompt).0.2
            == Stage::Finished),
        begin_spec(samples, sample_rate, passthrough, prompt).1 == begin_spec(
            samples,
            sample_rate,
            !passthrough,
            other_prompt,
        ).1,
{
}

/// A passthrough run of a long enough recording sends the recording as WAV, pastes
/// the trimmed transcript, and finishes; with distillation, the model gets the
/// prompt followed by the trimmed transcript and its trimmed answer is pasted.
pub proof fn law_successful_runs(
    samples: Seq<i16>,
    sample_rate: u32,
    prompt: Seq<char>,
    raw: Seq<char>,
    answer: Seq<char>,
)
    requires
        !too_short(samples.len() as int, sample_rate),
    ensures
        ({
            let (p0, a0) = begin_spec(samples, sample_rate, true, prompt);
            let (p1, a1) = step_spec(p0, EventSpec::Transcribed(Ok(raw)));
            let (p2, a2) = step_spec(p1, EventSpec::Pasted(Ok(())));
            &&& a0 == ActionSpec::Transcribe(wav_pcm16_mono(samples, sample_rate))
            &&& a1 == ActionSpec::Paste(trim(raw))
            &&& a2 == ActionSpec::Finish
            &&& p2.2 == Stage::Finished
        }),
        ({
            let (p0, a0) = begin_spec(samples, sample_rate, false, prompt);
            let (p1, a1) = step_spec(p0, EventSpec::Transcribed(Ok(raw)));
            let (p2, a2) = step_spec(p1, EventSpec::Response(answer));
            let (p3, a3) = step_spec(p2, EventSpec::Pasted(Ok(())));
            &&& a0 == ActionSpec::Transcribe(wav_pcm16_mono(samples, sample_rate))
            &&& p0.2 == Stage::Transcribing
            &&& a1 == ActionSpec::Distill("Distilling..."@, prompt + trim(raw))
            &&& a2 == ActionSpec::Paste(trim(answer))
            &&& a3 == ActionSpec::Finish
            &&& p3.2 == Stage::Finished
        }),
{
}

} // verus!
