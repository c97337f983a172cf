//! Argument handling of the command-line post-processing tool.
use vstd::prelude::*;
use crate::text::opt_string_view;

verus! {

/// The API key and the optional audio file of one invocation.
pub struct ParsedArgs {
    pub api_key: String,
    pub audio_path: Option<String>,
}

/// The error for a missing key.
pub open spec fn missing_key_message() -> Seq<char> {
    "GEMINI_API_KEYが必要です"@
}

/// How the arguments are read: none takes the key from the environment; one
/// is the audio file when the environment has a key, else the key; two or
/// more are the key and the audio file.
pub open spec fn parsed_args_spec(args: Seq<String>, env_key: Option<String>) -> Result<
    (Seq<char>, Option<Seq<char>>),
    Seq<char>,
> {
    if args.len() == 0 {
        match env_key {
            Some(k) => Ok((k@, None)),
            None => Err(missing_key_message()),
        }
    } else if args.len() == 1 {
        match env_key {
            Some(k) => Ok((k@, Some(args[0]@))),
            None => Ok((args[0]@, None)),
        }
    } else {
        Ok((args[0]@, Some(args[1]@)))
    }
}

pub open spec fn parsed_view(r: Result<ParsedArgs, String>) -> Result<
    (Seq<char>, Option<Seq<char>>),
    Seq<char>,
> {
    match r {
        Ok(p) => Ok(
            (
                p.api_key@,
                match p.audio_path {
                    Some(a) => Some(a@),
                    None => None,
                },
            ),
        ),
        Err(e) => Err(e@),
    }
}

/// Reads the arguments (without the program name) and the key found in the
/// environment.
pub fn parse_args(args: &[String], env_api_key: Option<String>) -> (r: Result<ParsedArgs, String>)
    ensures
        parsed_view(r) == parsed_args_spec(args@, env_api_key),
{
    if args.len() == 0 {
        match env_api_key {
            Some(api_key) => Ok(ParsedArgs { api_key, audio_path: None }),
            None => Err(String::from_str("GEMINI_API_KEYが必要です")),
        }
    } else if args.len() == 1 {
        match env_api_key {
            Some(api_key) => Ok(ParsedArgs { api_key, audio_path: Some(args[0].clone()) }),
            None => Ok(ParsedArgs { api_key: args[0].clone(), audio_path: None }),
        }
    } else {
        Ok(ParsedArgs { api_key: args[0].clone(), audio_path: Some(args[1].clone()) })
    }
}

/// The extension of a path's file name, as `std::path::Path` finds it.
pub uninterp spec fn extension_of(path: Seq<char>) -> Option<Seq<char>>;

/// Relies on `std::path::Path::extension`: the text after the last dot of
/// the final component, none without one; a function of the path alone.
#[verifier::external_body]
fn path_extension(path: &str) -> (r: Option<String>)
    ensures
        opt_string_view(r) == extension_of(path@),
{
    std::path::Path::new(path).extension().and_then(|s| s.to_str()).map(|s| s.to_string())
}

/// ASCII letters lowered, other characters kept.
pub open spec fn ascii_lower(c: char) -> char {
    if 'A' <= c <= 'Z' {
        ((c as u8) + 32) as u8 as char
    } else {
        c
    }
}

pub open spec fn ascii_lowercase(s: Seq<char>) -> Seq<char> {
    s.map_values(|c: char| ascii_lower(c))
}

fn lower_char(c: char) -> (r: char)
    ensures
        r == ascii_lower(c),
{
    if 'A' <= c && c <= 'Z' {
        ((c as u8) + 32) as char
    } else {
        c
    }
}

/// Whether `s`, ASCII letters lowered, equals `target`.
fn lowercase_equals(s: &str, target: &str) -> (r: bool)
    ensures
        r == (ascii_lowercase(s@) == target@),
{
    let n = s.unicode_len();
    if n != target.unicode_len() {
        proof {
            assert(ascii_lowercase(s@).len() != target@.len());
        }
        return false;
    }
    let mut i: usize = 0;
    while i < n
        invariant
            n == s@.len(),
            n == target@.len(),
            i <= n,
            forall|k: int| 0 <= k < i ==> ascii_lower(s@[k]) == target@[k],
        decreases n - i,
    {
        if lower_char(s.get_char(i)) != target.get_char(i) {
            proof {
                assert(ascii_lowercase(s@)[i as int] != target@[i as int]);
            }
            return false;
        }
        i = i + 1;
    }
    proof {
        assert(ascii_lowercase(s@) =~= target@);
    }
    true
}

/// The media type for an audio file's lowered extension, or the list of
/// supported formats.
pub open spec fn mime_of(ext: Seq<char>) -> Result<Seq<char>, Seq<char>> {
    if ext == "wav"@ {
        Ok("audio/wav"@)
    } else if ext == "mp3"@ {
        Ok("audio/mpeg"@)
    } else if ext == "aiff"@ || ext == "aif"@ {
        Ok("audio/aiff"@)
    } else if ext == "aac"@ {
        Ok("audio/aac"@)
    } else if ext == "ogg"@ {
        Ok("audio/ogg"@)
    } else if ext == "flac"@ {
        Ok("audio/flac"@)
    } else {
        Err("対応フォーマット: wav/mp3/aiff/aac/ogg/flac"@)
    }
}

pub open spec fn result_view(r: Result<String, String>) -> Result<Seq<char>, Seq<char>> {
    match r {
        Ok(s) => Ok(s@),
        Err(e) => Err(e@),
    }
}

/// The media type of an audio file, by its extension in any letter case.
pub fn mime_type_from_path(path: &str) -> (r: Result<String, String>)
    ensures
        result_view(r) == mime_of(
            ascii_lowercase(
                match extension_of(path@) {
                    Some(e) => e,
                    None => seq![],
                },
            ),
        ),
{
    let ext = match path_extension(path) {
        Some(e) => e,
        None => String::new(),
    };
    let e = ext.as_str();
    if lowercase_equals(e, "wav") {
        Ok(String::from_str("audio/wav"))
    } else if lowercase_equals(e, "mp3") {
        Ok(String::from_str("audio/mpeg"))
    } else if lowercase_equals(e, "aiff") || lowercase_equals(e, "aif") {
        Ok(String::from_str("audio/aiff"))
    } else if lowercase_equals(e, "aac") {
        Ok(String::from_str("audio/aac"))
    } else if lowercase_equals(e, "ogg") {
        Ok(String::from_str("audio/ogg"))
    } else if lowercase_equals(e, "flac") {
        Ok(String::from_str("audio/flac"))
    } else {
        Err(String::from_str("対応フォーマット: wav/mp3/aiff/aac/ogg/flac"))
    }
}

} // verus!
