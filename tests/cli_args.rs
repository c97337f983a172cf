use whisp::cli::{mime_type_from_path, parse_args};

fn args(values: &[&str]) -> Vec<String> {
    values.iter().map(|value| (*value).to_string()).collect()
}

#[test]
fn uses_env_key_with_single_audio_arg() {
    let parsed = parse_args(&args(&["audio.wav"]), Some("ENV_KEY".to_string())).unwrap();
    assert_eq!(parsed.api_key, "ENV_KEY");
    assert_eq!(parsed.audio_path.as_deref(), Some("audio.wav"));
}

#[test]
fn uses_cli_key_when_no_env_key() {
    let parsed = parse_args(&args(&["CLI_KEY"]), None).unwrap();
    assert_eq!(parsed.api_key, "CLI_KEY");
    assert!(parsed.audio_path.is_none());
}

#[test]
fn uses_cli_key_and_audio_when_two_args() {
    let parsed =
        parse_args(&args(&["CLI_KEY", "audio.wav"]), Some("ENV_KEY".to_string())).unwrap();
    assert_eq!(parsed.api_key, "CLI_KEY");
    assert_eq!(parsed.audio_path.as_deref(), Some("audio.wav"));
}

#[test]
fn requires_env_key_when_no_args() {
    let err = parse_args(&[], None).err().unwrap();
    assert_eq!(err, "GEMINI_API_KEYが必要です");
}

#[test]
fn env_key_used_when_no_args() {
    let parsed = parse_args(&[], Some("K".to_string())).unwrap();
    assert_eq!(parsed.api_key, "K");
    assert!(parsed.audio_path.is_none());
}

#[test]
fn mime_types_by_extension_ignore_case() {
    assert_eq!(mime_type_from_path("clip.wav").unwrap(), "audio/wav");
    assert_eq!(mime_type_from_path("dir/clip.WAV").unwrap(), "audio/wav");
    assert_eq!(mime_type_from_path("a.mp3").unwrap(), "audio/mpeg");
    assert_eq!(mime_type_from_path("a.aif").unwrap(), "audio/aiff");
    assert_eq!(mime_type_from_path("a.Aiff").unwrap(), "audio/aiff");
    assert_eq!(mime_type_from_path("a.aac").unwrap(), "audio/aac");
    assert_eq!(mime_type_from_path("a.ogg").unwrap(), "audio/ogg");
    assert_eq!(mime_type_from_path("a.flac").unwrap(), "audio/flac");
}

#[test]
fn mime_type_rejects_unknown_or_missing_extension() {
    let msg = "対応フォーマット: wav/mp3/aiff/aac/ogg/flac";
    assert_eq!(mime_type_from_path("a.txt").err().unwrap(), msg);
    assert_eq!(mime_type_from_path("noext").err().unwrap(), msg);
    assert_eq!(mime_type_from_path("wav").err().unwrap(), msg);
}
