//! The request that opens a transcription stream.
use vstd::prelude::*;
use crate::text::opt_string_view;

verus! {

/// The decimal digit character of `d < 10`.
pub open spec fn digit_char(d: nat) -> char {
    "0123456789"@[d as int]
}

/// The decimal notation of a number, without leading zeros.
pub open spec fn decimal(n: nat) -> Seq<char>
    decreases n,
{
    if n < 10 {
        seq![digit_char(n)]
    } else {
        decimal(n / 10) + seq![digit_char(n % 10)]
    }
}

/// The decimal notation of `n`.
pub fn decimal_string(n: u32) -> (r: String)
    ensures
        r@ == decimal(n as nat),
    decreases n,
{
    let digits = "0123456789";
    proof {
        reveal_strlit("0123456789");
    }
    let d = (n % 10) as usize;
    let mut out = if n < 10 {
        String::new()
    } else {
        decimal_string(n / 10)
    };
    out.append(digits.substring_char(d, d + 1));
    proof {
        if n < 10 {
            assert(out@ =~= seq![digit_char(n as nat)]);
        } else {
            assert(out@ =~= decimal((n / 10) as nat) + seq![digit_char((n % 10) as nat)]);
        }
    }
    out
}

/// The streaming endpoint for mono 16-bit PCM at `sample_rate`, without
/// punctuation, with the language when one is given.
pub open spec fn listen_url_spec(sample_rate: u32, language: Option<Seq<char>>) -> Seq<char> {
    let base = "wss://api.deepgram.com/v1/listen?encoding=linear16&sample_rate="@ + decimal(
        sample_rate as nat,
    ) + "&channels=1&punctuate=false"@;
    match language {
        Some(l) => base + "&language="@ + l,
        None => base,
    }
}

/// The URL that opens a stream.
pub fn listen_url(sample_rate: u32, language: Option<String>) -> (r: String)
    ensures
        r@ == listen_url_spec(sample_rate, opt_string_view(language)),
{
    let mut url = String::from_str("wss://api.deepgram.com/v1/listen?encoding=linear16&sample_rate=");
    let rate = decimal_string(sample_rate);
    url.append(rate.as_str());
    url.append("&channels=1&punctuate=false");
    if let Some(lang) = language {
        url.append("&language=");
        url.append(lang.as_str());
    }
    url
}

/// The value of the authorization header for an API key.
pub fn auth_header_value(api_key: &str) -> (r: String)
    ensures
        r@ == "Token "@ + api_key@,
{
    let mut v = String::from_str("Token ");
    v.append(api_key);
    v
}

} // verus!
