//! Which audio URLs the desktop player accepts: plain-HTTP URLs of the local
//! gateway's TTS audio route, and audio of a bounded size.

use vstd::prelude::*;
use crate::text::{chars_of, contains, contains_chars, same_text};

verus! {

/// The most bytes of downloaded TTS audio that are played.
pub const MAX_TTS_AUDIO_BYTES: usize = 20971520;

/// The parts of a parsed URL that decide whether it is accepted.
#[derive(Debug)]
pub struct UrlParts {
    pub scheme: String,
    pub host: Option<String>,
    pub path: String,
}

/// The plain value of a `UrlParts`: scheme, host and path.
pub open spec fn url_view(p: UrlParts) -> (Seq<char>, Option<Seq<char>>, Seq<char>) {
    (p.scheme@, match p.host {
        Some(h) => Some(h@),
        None => None,
    }, p.path@)
}

/// The plain value of a parse or check result.
pub open spec fn parsed_view(r: Result<UrlParts, String>) -> Result<
    (Seq<char>, Option<Seq<char>>, Seq<char>),
    Seq<char>,
> {
    match r {
        Ok(p) => Ok(url_view(p)),
        Err(e) => Err(e@),
    }
}

/// What `Url::parse` (of the `url` crate, re-exported by `reqwest`) gives for
/// `raw`: scheme, host and path of the URL, or the text of the parse error.
pub uninterp spec fn spec_url_parse(raw: Seq<char>) -> Result<
    (Seq<char>, Option<Seq<char>>, Seq<char>),
    Seq<char>,
>;

/// `reqwest::Url::parse` followed by the URL's `scheme()`, `host_str()` and
/// `path()`; a parse error is given as its display text. The result is named
/// by `spec_url_parse`.
#[verifier::external_body]
fn parse_url(raw: &str) -> (r: Result<UrlParts, String>)
    ensures
        parsed_view(r) == spec_url_parse(raw@),
{
    match reqwest::Url::parse(raw) {
        Ok(url) => Ok(
            UrlParts {
                scheme: url.scheme().to_string(),
                host: url.host_str().map(|h| h.to_string()),
                path: url.path().to_string(),
            },
        ),
        Err(e) => Err(e.to_string()),
    }
}

/// The answer for a parsed URL: the URL itself when it is local TTS audio,
/// else the first reason it is not.
pub open spec fn spec_check_local_tts_url(
    parsed: Result<(Seq<char>, Option<Seq<char>>, Seq<char>), Seq<char>>,
) -> Result<(Seq<char>, Option<Seq<char>>, Seq<char>), Seq<char>> {
    match parsed {
        Err(e) => Err("invalid TTS audio URL: "@ + e),
        Ok(u) => {
            if u.0 != "http"@ {
                Err("TTS audio URL must use http"@)
            } else if u.1 is None {
                Err("TTS audio URL must include a host"@)
            } else if u.1->0 != "127.0.0.1"@ && u.1->0 != "localhost"@ {
                Err("TTS audio URL must be local-only"@)
            } else if !contains(u.2, "/api/tts/audio/"@) {
                Err("TTS audio URL must point to /api/tts/audio/"@)
            } else {
                Ok(u)
            }
        },
    }
}

/// Checks a parsed URL: it must use `http`, name the host `127.0.0.1` or
/// `localhost`, and have a path holding `/api/tts/audio/`.
pub fn check_local_tts_url(parsed: Result<UrlParts, String>) -> (r: Result<UrlParts, String>)
    ensures
        parsed_view(r) == spec_check_local_tts_url(parsed_view(parsed)),
{
    match parsed {
        Err(e) => {
            let mut msg = String::from_str("invalid TTS audio URL: ");
            msg.append(e.as_str());
            Err(msg)
        },
        Ok(p) => {
            if !same_text(p.scheme.as_str(), "http") {
                return Err(String::from_str("TTS audio URL must use http"));
            }
            let local = match &p.host {
                None => {
                    return Err(String::from_str("TTS audio URL must include a host"));
                },
                Some(h) => same_text(h.as_str(), "127.0.0.1") || same_text(h.as_str(), "localhost"),
            };
            if !local {
                return Err(String::from_str("TTS audio URL must be local-only"));
            }
            let path = chars_of(p.path.as_str());
            let route = chars_of("/api/tts/audio/");
            if !contains_chars(&path, &route) {
                return Err(String::from_str("TTS audio URL must point to /api/tts/audio/"));
            }
            Ok(p)
        },
    }
}

/// Parses `raw` and checks that it names local TTS audio.
pub fn validate_local_tts_url(raw: &str) -> (r: Result<UrlParts, String>)
    ensures
        parsed_view(r) == spec_check_local_tts_url(spec_url_parse(raw@)),
{
    let parsed = parse_url(raw);
    check_local_tts_url(parsed)
}

/// Checks the size of downloaded TTS audio.
pub fn check_tts_audio_len(len: usize) -> (r: Result<(), String>)
    ensures
        r is Ok <==> len <= MAX_TTS_AUDIO_BYTES,
        r matches Err(e) ==> e@ == "local TTS audio is too large to play safely"@,
{
    if len > MAX_TTS_AUDIO_BYTES {
        Err(String::from_str("local TTS audio is too large to play safely"))
    } else {
        Ok(())
    }
}

/// Law: an accepted URL uses plain HTTP, names the local host, and points
/// into the TTS audio route.
pub proof fn law_accepted_urls_are_local(
    parsed: Result<(Seq<char>, Option<Seq<char>>, Seq<char>), Seq<char>>,
)
    ensures
        spec_check_local_tts_url(parsed) matches Ok(u) ==> {
            &&& parsed == Ok::<_, Seq<char>>(u)
            &&& u.0 == "http"@
            &&& (u.1 == Some("127.0.0.1"@) || u.1 == Some("localhost"@))
            &&& contains(u.2, "/api/tts/audio/"@)
        },
{
}

} // verus!
