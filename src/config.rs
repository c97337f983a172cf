//! User settings.
use vstd::prelude::*;
use crate::error::AppError;
use crate::text::{is_blank, is_blank_seq, trim, trimmed};

verus! {

/// Keys of the remote services.
#[derive(Clone, Debug, PartialEq, Eq)]
pub struct ApiKeys {
    pub deepgram: String,
    pub gemini: String,
    pub openai: String,
}

/// How the shortcut drives a recording.
#[derive(Clone, Copy, Debug, PartialEq, Eq, Structural)]
pub enum RecordingMode {
    Toggle,
    PushToTalk,
}

/// The language model that post-processes a transcript.
#[derive(Clone, Copy, Debug, PartialEq, Eq, Structural)]
pub enum LlmModel {
    Gemini25FlashLite,
    Gemini25FlashLiteAudio,
    Gpt4oMini,
    Gpt5Nano,
}

/// The model name each model is requested under.
pub open spec fn model_name(m: LlmModel) -> Seq<char> {
    match m {
        LlmModel::Gemini25FlashLite => "gemini-2.5-flash-lite"@,
        LlmModel::Gemini25FlashLiteAudio => "gemini-2.5-flash-lite"@,
        LlmModel::Gpt4oMini => "gpt-4o-mini"@,
        LlmModel::Gpt5Nano => "gpt-5-nano"@,
    }
}

impl LlmModel {
    /// The name the model is requested under.
    pub fn as_str(self) -> (r: &'static str)
        ensures
            r@ == model_name(self),
    {
        match self {
            LlmModel::Gemini25FlashLite => "gemini-2.5-flash-lite",
            LlmModel::Gemini25FlashLiteAudio => "gemini-2.5-flash-lite",
            LlmModel::Gpt4oMini => "gpt-4o-mini",
            LlmModel::Gpt5Nano => "gpt-5-nano",
        }
    }

    /// Whether the model transcribes the audio itself, with no streaming
    /// speech-to-text.
    pub fn uses_direct_audio(self) -> (r: bool)
        ensures
            r == (self == LlmModel::Gemini25FlashLiteAudio),
    {
        matches!(self, LlmModel::Gemini25FlashLiteAudio)
    }

    /// Whether the model is served by the Gemini API.
    pub open spec fn is_gemini(self) -> bool {
        self == LlmModel::Gemini25FlashLite || self == LlmModel::Gemini25FlashLiteAudio
    }
}

/// A prompt template for one application.
#[derive(Clone, Debug, PartialEq, Eq)]
pub struct AppPromptRule {
    pub app_name: String,
    pub template: String,
}

/// Which kinds of screen context are gathered.
#[derive(Clone, Copy, Debug, PartialEq, Eq, Structural)]
pub struct ContextConfig {
    pub accessibility_enabled: bool,
    pub vision_enabled: bool,
}

/// Settings of the billing query.
#[derive(Clone, Debug, PartialEq, Eq)]
pub struct BillingSettings {
    pub deepgram_enabled: bool,
    pub deepgram_project_id: String,
}

/// All user settings.
#[derive(Clone, Debug, PartialEq, Eq)]
pub struct Config {
    pub api_keys: ApiKeys,
    pub shortcut: String,
    pub input_language: String,
    pub recording_mode: RecordingMode,
    pub known_apps: Vec<String>,
    pub app_prompt_rules: Vec<AppPromptRule>,
    pub llm_model: LlmModel,
    pub context: ContextConfig,
    pub billing: BillingSettings,
}

/// The settings of a first start.
pub open spec fn is_default_config(c: Config) -> bool {
    &&& c.api_keys.deepgram@.len() == 0
    &&& c.api_keys.gemini@.len() == 0
    &&& c.api_keys.openai@.len() == 0
    &&& c.shortcut@ == "Cmd+J"@
    &&& c.input_language@ == "ja"@
    &&& c.recording_mode == RecordingMode::Toggle
    &&& c.known_apps@.len() == 0
    &&& c.app_prompt_rules@.len() == 0
    &&& c.llm_model == LlmModel::Gemini25FlashLite
    &&& c.context == (ContextConfig { accessibility_enabled: true, vision_enabled: true })
    &&& !c.billing.deepgram_enabled
    &&& c.billing.deepgram_project_id@.len() == 0
}

impl Config {
    /// The settings of a first start.
    pub fn default_config() -> (r: Config)
        ensures
            is_default_config(r),
    {
        Config {
            api_keys: ApiKeys { deepgram: String::new(), gemini: String::new(), openai: String::new() },
            shortcut: String::from_str("Cmd+J"),
            input_language: String::from_str("ja"),
            recording_mode: RecordingMode::Toggle,
            known_apps: Vec::new(),
            app_prompt_rules: Vec::new(),
            llm_model: LlmModel::Gemini25FlashLite,
            context: ContextConfig { accessibility_enabled: true, vision_enabled: true },
            billing: BillingSettings { deepgram_enabled: false, deepgram_project_id: String::new() },
        }
    }
}

/// The key the configured model needs: the Gemini key for Gemini models, the
/// OpenAI key for the others; missing when it is blank.
pub open spec fn llm_key_outcome(c: Config) -> Result<Seq<char>, Seq<char>> {
    if c.llm_model.is_gemini() {
        if is_blank_seq(c.api_keys.gemini@) {
            Err("gemini"@)
        } else {
            Ok(c.api_keys.gemini@)
        }
    } else {
        if is_blank_seq(c.api_keys.openai@) {
            Err("openai"@)
        } else {
            Ok(c.api_keys.openai@)
        }
    }
}

/// The API key of the configured language model, or `MissingApiKey` with
/// the service's name when it is blank.
pub fn required_llm_key(config: &Config) -> (r: Result<&str, AppError>)
    ensures
        match (r, llm_key_outcome(*config)) {
            (Ok(k), Ok(e)) => k@ == e,
            (Err(AppError::MissingApiKey(n)), Err(e)) => n@ == e,
            _ => false,
        },
{
    match config.llm_model {
        LlmModel::Gemini25FlashLite | LlmModel::Gemini25FlashLiteAudio => {
            if is_blank(config.api_keys.gemini.as_str()) {
                return Err(AppError::MissingApiKey("gemini"));
            }
            Ok(config.api_keys.gemini.as_str())
        },
        LlmModel::Gpt4oMini | LlmModel::Gpt5Nano => {
            if is_blank(config.api_keys.openai.as_str()) {
                return Err(AppError::MissingApiKey("openai"));
            }
            Ok(config.api_keys.openai.as_str())
        },
    }
}

/// Adds the trimmed name of an application to the known ones, unless it is
/// blank or already known; returns whether the list changed.
pub fn record_known_app(known_apps: &mut Vec<String>, app_name: &str) -> (changed: bool)
    ensures
        ({
            let t = trimmed(app_name@);
            if t.len() == 0 || exists|i: int| 0 <= i < old(known_apps)@.len() && (#[trigger] old(known_apps)@[i])@ == t {
                !changed && final(known_apps)@ == old(known_apps)@
            } else {
                changed && final(known_apps)@.len() == old(known_apps)@.len() + 1
                    && final(known_apps)@.take(old(known_apps)@.len() as int) == old(known_apps)@
                    && final(known_apps)@.last()@ == t
            }
        }),
{
    let name = trim(app_name);
    if name.as_str().is_empty() {
        return false;
    }
    let mut i: usize = 0;
    while i < known_apps.len()
        invariant
            i <= known_apps@.len(),
            known_apps@ == old(known_apps)@,
            name@ == trimmed(app_name@),
            name@.len() > 0,
            forall|k: int| 0 <= k < i ==> (#[trigger] known_apps@[k])@ != name@,
        decreases known_apps@.len() - i,
    {
        if known_apps[i] == name {
            proof {
                assert(old(known_apps)@[i as int]@ == trimmed(app_name@));
            }
            return false;
        }
        i = i + 1;
    }
    known_apps.push(name);
    proof {
        assert(known_apps@.take(old(known_apps)@.len() as int) =~= old(known_apps)@);
    }
    true
}

/// A filesystem path of std, opaque here.
#[verifier::external_type_specification]
#[verifier::external_body]
pub struct ExPathBuf(std::path::PathBuf);

/// Where the settings are stored.
pub struct ConfigManager {
    path: std::path::PathBuf,
}

impl ConfigManager {
    /// The file the settings are stored in.
    pub closed spec fn path_spec(&self) -> std::path::PathBuf {
        self.path
    }

    /// A manager of the settings file at `path`.
    pub fn with_path(path: std::path::PathBuf) -> (r: Self)
        ensures
            r.path_spec() == path,
    {
        ConfigManager { path }
    }

    /// The settings file.
    pub fn path(&self) -> (r: &std::path::PathBuf)
        ensures
            *r == self.path_spec(),
    {
        &self.path
    }

    /// Given what reading the settings file gave, the settings to use and
    /// whether they must be written back: the file's settings when it could
    /// be read, else the defaults, to be written.
    pub fn load_or_create(&self, loaded: Result<Config, AppError>) -> (r: (Config, bool))
        ensures
            loaded matches Ok(c) ==> r == (c, false),
            loaded is Err ==> is_default_config(r.0) && r.1,
    {
        match loaded {
            Ok(config) => (config, false),
            Err(_) => (Config::default_config(), true),
        }
    }
}

} // verus!
