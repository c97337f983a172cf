//! Decisions of the recording pipeline between the end of a stream and the
//! return to idle.
use vstd::prelude::*;
use crate::config::{llm_key_outcome, required_llm_key, Config, RecordingMode};
use crate::error::AppError;
use crate::session::SessionState;
use crate::transcript::{SttEvent, SttResult};
use crate::text::{contains, has_substring, is_blank, is_blank_seq};

verus! {

/// What happens to the pipeline.
#[derive(PartialEq, Eq, Structural, Clone, Copy, Debug)]
pub enum PipelineEvent {
    /// A recording was admitted.
    Started,
    /// The stream connection opened.
    Connected,
    /// The recording was stopped by the user or a watchdog.
    Stopped,
    /// The transcript holds whitespace only.
    BlankTranscript,
    /// The collaborators corrected the transcript.
    Processed,
    /// The result reached the output collaborator.
    Delivered,
    /// A stage failed.
    Failed,
}

/// The pipeline's transitions: `Idle → Recording → Streaming →
/// PostProcessing → Finishing → Idle`, a blank transcript going straight to
/// `Finishing`, any failure of a non-idle stage to `Error`, and `Error`
/// always back to `Idle`. Any other event leaves the state as it is.
pub open spec fn transition(s: SessionState, e: PipelineEvent) -> SessionState {
    match (s, e) {
        (SessionState::Error, _) => SessionState::Idle,
        (SessionState::Idle, PipelineEvent::Started) => SessionState::Recording,
        (SessionState::Idle, _) => SessionState::Idle,
        (_, PipelineEvent::Failed) => SessionState::Error,
        (SessionState::Recording, PipelineEvent::Connected) => SessionState::Streaming,
        (SessionState::Recording, PipelineEvent::Stopped) => SessionState::PostProcessing,
        (SessionState::Streaming, PipelineEvent::Stopped) => SessionState::PostProcessing,
        (SessionState::PostProcessing, PipelineEvent::BlankTranscript) => SessionState::Finishing,
        (SessionState::PostProcessing, PipelineEvent::Processed) => SessionState::Finishing,
        (SessionState::Finishing, PipelineEvent::Delivered) => SessionState::Idle,
        _ => s,
    }
}

/// The next stage of the pipeline.
pub fn next_state(s: SessionState, e: PipelineEvent) -> (r: SessionState)
    ensures
        r == transition(s, e),
{
    match (s, e) {
        (SessionState::Error, _) => SessionState::Idle,
        (SessionState::Idle, PipelineEvent::Started) => SessionState::Recording,
        (SessionState::Idle, _) => SessionState::Idle,
        (_, PipelineEvent::Failed) => SessionState::Error,
        (SessionState::Recording, PipelineEvent::Connected) => SessionState::Streaming,
        (SessionState::Recording, PipelineEvent::Stopped) => SessionState::PostProcessing,
        (SessionState::Streaming, PipelineEvent::Stopped) => SessionState::PostProcessing,
        (SessionState::PostProcessing, PipelineEvent::BlankTranscript) => SessionState::Finishing,
        (SessionState::PostProcessing, PipelineEvent::Processed) => SessionState::Finishing,
        (SessionState::Finishing, PipelineEvent::Delivered) => SessionState::Idle,
        _ => s,
    }
}

/// Whether a transcript holds nothing but whitespace, so that the
/// collaborators are not called.
pub fn is_empty_stt(text: &str) -> (r: bool)
    ensures
        r == is_blank_seq(text@),
{
    is_blank(text)
}

/// The event that a finished transcript amounts to: a blank one ends the
/// post-processing at once; otherwise none, and the collaborators run.
pub fn transcript_event(text: &str) -> (r: Option<PipelineEvent>)
    ensures
        r == (if is_blank_seq(text@) {
            Some(PipelineEvent::BlankTranscript)
        } else {
            None
        }),
{
    if is_empty_stt(text) {
        Some(PipelineEvent::BlankTranscript)
    } else {
        None
    }
}

/// The streaming language parameter for a configured input language:
/// `ja` and `en` are passed on, anything else (`auto` included) leaves the
/// service to detect it.
pub fn language_param(value: &str) -> (r: Option<String>)
    ensures
        (value@ == "ja"@ || value@ == "en"@) ==> (r matches Some(s) && s@ == value@),
        !(value@ == "ja"@ || value@ == "en"@) ==> r is None,
{
    let ja = "ja";
    let en = "en";
    proof {
        reveal_strlit("ja");
        reveal_strlit("en");
    }
    if value.unicode_len() == 2 {
        let a = value.get_char(0);
        let b = value.get_char(1);
        if (a == 'j' && b == 'a') || (a == 'e' && b == 'n') {
            proof {
                assert(value@ =~= seq![a, b]);
                assert(value@ == ja@ || value@ == en@);
            }
            return Some(String::from_str(value));
        }
        proof {
            assert(value@ != ja@ && value@ != en@) by {
                if value@ == ja@ {
                    assert(value@[0] == 'j' && value@[1] == 'a');
                }
                if value@ == en@ {
                    assert(value@[0] == 'e' && value@[1] == 'n');
                }
            }
        }
    }
    None
}

/// The provider that a model name belongs to.
pub open spec fn provider_of(model: Seq<char>) -> Seq<char> {
    if has_substring(model, "gemini"@) {
        "gemini"@
    } else {
        "openai"@
    }
}

/// The provider of a model: `gemini` when the name mentions it, else
/// `openai`.
pub fn llm_provider_from_model(model: &str) -> (r: String)
    ensures
        r@ == provider_of(model@),
{
    if contains(model, "gemini") {
        String::from_str("gemini")
    } else {
        String::from_str("openai")
    }
}

/// Whatever went wrong, an `Error` stage is followed by `Idle`.
pub proof fn error_always_returns_to_idle(e: PipelineEvent)
    ensures
        transition(SessionState::Error, e) == SessionState::Idle,
{
}

/// Why a recording may not start: the speech-to-text key is needed unless
/// the model transcribes the audio itself, and the model's own key always.
pub open spec fn start_check(c: Config) -> Result<(), Seq<char>> {
    if !(c.llm_model == crate::config::LlmModel::Gemini25FlashLiteAudio) && is_blank_seq(
        c.api_keys.deepgram@,
    ) {
        Err("deepgram"@)
    } else {
        match llm_key_outcome(c) {
            Ok(_) => Ok(()),
            Err(n) => Err(n),
        }
    }
}

/// Checks that the keys a recording needs are set; a missing one is named
/// in `MissingApiKey`.
pub fn validate_start(config: &Config) -> (r: Result<(), AppError>)
    ensures
        match (r, start_check(*config)) {
            (Ok(()), Ok(())) => true,
            (Err(AppError::MissingApiKey(n)), Err(e)) => n@ == e,
            _ => false,
        },
{
    if !config.llm_model.uses_direct_audio() && is_blank(config.api_keys.deepgram.as_str()) {
        return Err(AppError::MissingApiKey("deepgram"));
    }
    match required_llm_key(config) {
        Ok(_) => Ok(()),
        Err(e) => Err(e),
    }
}

/// The outcome of a stream from its two legs: a send failure is fatal and
/// wins, then a receive failure; both are reported as an error event too.
/// Otherwise the reduced transcript.
pub fn stream_outcome(send: Result<(), String>, recv: Result<SttResult, String>) -> (r: (
    Result<SttResult, AppError>,
    Option<SttEvent>,
))
    ensures
        send matches Err(e) ==> (r.0 matches Err(AppError::WebSocket(m)) && m == e) && (r.1 matches Some(
            SttEvent::Error(m),
        ) && m == e),
        send is Ok ==> (recv matches Err(e) ==> (r.0 matches Err(AppError::WebSocket(m)) && m == e)
            && (r.1 matches Some(SttEvent::Error(m)) && m == e)),
        send is Ok ==> (recv matches Ok(v) ==> (r.0 matches Ok(w) && w == v) && r.1 is None),
{
    match send {
        Err(e) => {
            let note = e.clone();
            (Err(AppError::WebSocket(e)), Some(SttEvent::Error(note)))
        },
        Ok(()) => match recv {
            Err(e) => {
                let note = e.clone();
                (Err(AppError::WebSocket(e)), Some(SttEvent::Error(note)))
            },
            Ok(result) => (Ok(result), None),
        },
    }
}

/// What a shortcut press or release asks for.
#[derive(PartialEq, Eq, Structural, Clone, Copy, Debug)]
pub enum ShortcutAction {
    Start,
    Stop,
    Nothing,
}

/// In toggle mode a press starts or stops and a release does nothing; in
/// push-to-talk mode a press starts when idle and a release stops.
pub open spec fn shortcut_spec(mode: RecordingMode, pressed: bool, active: bool) -> ShortcutAction {
    match mode {
        RecordingMode::Toggle => if !pressed {
            ShortcutAction::Nothing
        } else if active {
            ShortcutAction::Stop
        } else {
            ShortcutAction::Start
        },
        RecordingMode::PushToTalk => if pressed {
            if active {
                ShortcutAction::Nothing
            } else {
                ShortcutAction::Start
            }
        } else {
            ShortcutAction::Stop
        },
    }
}

/// What the shortcut asks for in the configured mode, given whether a
/// session is live.
pub fn shortcut_action(mode: RecordingMode, pressed: bool, active: bool) -> (r: ShortcutAction)
    ensures
        r == shortcut_spec(mode, pressed, active),
{
    match mode {
        RecordingMode::Toggle => {
            if !pressed {
                ShortcutAction::Nothing
            } else if active {
                ShortcutAction::Stop
            } else {
                ShortcutAction::Start
            }
        },
        RecordingMode::PushToTalk => {
            if pressed {
                if active {
                    ShortcutAction::Nothing
                } else {
                    ShortcutAction::Start
                }
            } else {
                ShortcutAction::Stop
            }
        },
    }
}

} // verus!
