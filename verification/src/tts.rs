//! The local text-to-speech bridge: cache file names, request and response
//! values, and how the bridge judges replies and installed files.

use vstd::prelude::*;
use vstd::utf8::{encode_utf8, is_ascii_chars, is_ascii_chars_encode_utf8};
use crate::text::{chars_of, is_hex_digit, same_text, trim, trim_chars, string_of};
use crate::segments::{split_text, spec_split_text, string_views};

verus! {

pub const TTS_HOST: &'static str = "127.0.0.1";
pub const TTS_PORT: u16 = 9880;
pub const TTS_ENDPOINT: &'static str = "http://127.0.0.1:9880/";

/// How long the bridge waits for the server after starting it, in milliseconds.
pub const TTS_START_WAIT_MS: u64 = 2000;
/// How long a speak request waits for a server that is still starting, in
/// milliseconds.
pub const TTS_READY_WAIT_MS: u64 = 90000;
/// The pause between two checks whether the server listens, in milliseconds.
pub const TTS_POLL_INTERVAL_MS: u64 = 500;
/// How long one check whether the server listens may take, in milliseconds.
pub const TTS_CONNECT_TIMEOUT_MS: u64 = 400;

/// The body of a status reply.
#[derive(Debug)]
pub struct TtsStatusResponse {
    pub status: &'static str,
    pub endpoint: &'static str,
    pub cache_dir: String,
    pub bind_host: &'static str,
    pub port: u16,
}

/// One synthesized segment of a speak reply.
#[derive(Debug)]
pub struct TtsSegmentResponse {
    pub text: String,
    pub url: String,
    pub cached: bool,
}

/// The body of a speak reply.
#[derive(Debug)]
pub struct TtsSpeakResponse {
    pub status: &'static str,
    pub endpoint: &'static str,
    pub cache_dir: String,
    pub segments: Vec<TtsSegmentResponse>,
}

/// The body of a speak request.
#[derive(Debug)]
pub struct TtsSpeakBody {
    pub text: String,
}

/// What SHA-256 gives for `data`.
pub uninterp spec fn spec_sha256(data: Seq<u8>) -> Seq<u8>;

/// The lower-case hexadecimal digits.
pub open spec fn hex_table() -> Seq<char> {
    seq!['0', '1', '2', '3', '4', '5', '6', '7', '8', '9', 'a', 'b', 'c', 'd', 'e', 'f']
}

/// Lower-case hexadecimal text of `data`, two digits per byte, high nibble first.
pub open spec fn hex_lower(data: Seq<u8>) -> Seq<char>
    decreases data.len(),
{
    if data.len() == 0 {
        Seq::empty()
    } else {
        seq![hex_table()[(data[0] / 16) as int], hex_table()[(data[0] % 16) as int]] + hex_lower(data.drop_first())
    }
}

/// The bytes hashed before the text when naming a cache file: the text of
/// `yuni-gpt-sovits-v1` followed by a zero byte.
pub open spec fn cache_key_prefix() -> Seq<u8> {
    seq![121u8, 117, 110, 105, 45, 103, 112, 116, 45, 115, 111, 118, 105, 116, 115, 45, 118, 49, 0]
}

/// The characters `.wav`.
pub open spec fn wav_suffix() -> Seq<char> {
    seq!['.', 'w', 'a', 'v']
}

/// The cache file name for a digest: its hex text and `.wav`.
pub open spec fn spec_cache_file_name_from_digest(digest: Seq<u8>) -> Seq<char> {
    hex_lower(digest) + wav_suffix()
}

/// The cache file name for `text`.
pub open spec fn spec_cache_file_name(text: Seq<char>) -> Seq<char> {
    spec_cache_file_name_from_digest(spec_sha256(cache_key_prefix() + encode_utf8(text)))
}

/// An ASCII hexadecimal digit, as a byte.
pub open spec fn is_hex_byte(b: u8) -> bool {
    (48 <= b <= 57) || (97 <= b <= 102) || (65 <= b <= 70)
}

/// A served cache file name: 68 bytes, 64 hexadecimal digits and then `.wav`.
pub open spec fn spec_is_safe_cache_file(bytes: Seq<u8>) -> bool {
    &&& bytes.len() == 68
    &&& bytes.subrange(64, 68) == seq![46u8, 119, 97, 118]
    &&& forall|i: int| 0 <= i < 64 ==> is_hex_byte(#[trigger] bytes[i])
}

/// `Sha256::digest` of the `sha2` crate. Its result is named by `spec_sha256`;
/// the crate's `Sha256` has a 32-byte output size, which is stated too.
#[verifier::external_body]
fn sha256_digest(data: &[u8]) -> (out: Vec<u8>)
    ensures
        out@ == spec_sha256(data@),
        out@.len() == 32,
{
    <sha2::Sha256 as sha2::Digest>::digest(data).to_vec()
}

/// `hex::encode` of the `hex` crate: two lower-case hexadecimal digits per
/// byte, high nibble first (the crate's `HEX_CHARS_LOWER` table).
#[verifier::external_body]
fn hex_encode(data: &[u8]) -> (out: String)
    ensures
        out@ == hex_lower(data@),
{
    hex::encode(data)
}

proof fn lemma_hex_lower_shape(data: Seq<u8>)
    ensures
        hex_lower(data).len() == 2 * data.len(),
        forall|i: int|
            0 <= i < hex_lower(data).len() ==> is_hex_digit(#[trigger] hex_lower(data)[i]) && (
            hex_lower(data)[i] as u32) < 128,
    decreases data.len(),
{
    if data.len() > 0 {
        lemma_hex_lower_shape(data.drop_first());
        let h = hex_lower(data);
        let t = hex_lower(data.drop_first());
        assert forall|i: int| 0 <= i < h.len() implies is_hex_digit(#[trigger] h[i]) && (
        h[i] as u32) < 128 by {
            if i >= 2 {
                assert(h[i] == t[i - 2]);
            } else {
                let d0 = data[0] / 16;
                let d1 = data[0] % 16;
                assert(0 <= d0 < 16 && 0 <= d1 < 16);
            }
        }
    }
}

/// The cache file name for a SHA-256 digest: its lower-case hex text and `.wav`.
#[verifier::rlimit(30)]
pub fn cache_file_name_from_digest(digest: &Vec<u8>) -> (name: String)
    ensures
        name@ == spec_cache_file_name_from_digest(digest@),
        digest@.len() == 32 ==> spec_is_safe_cache_file(encode_utf8(name@)),
{
    let mut name = hex_encode(digest.as_slice());
    name.push('.');
    name.push('w');
    name.push('a');
    name.push('v');
    proof {
        let n = name@;
        assert(n == hex_lower(digest@) + wav_suffix());
        if digest@.len() == 32 {
            lemma_hex_lower_shape(digest@);
            assert(is_ascii_chars(n)) by {
                assert forall|i: int| 0 <= i < n.len() implies (#[trigger] n[i] as u32) < 128 by {
                    if i < 64 {
                        assert(n[i] == hex_lower(digest@)[i]);
                    }
                }
            }
            is_ascii_chars_encode_utf8(n);
            let b = encode_utf8(n);
            assert forall|i: int| 0 <= i < 64 implies is_hex_byte(#[trigger] b[i]) by {
                assert(n[i] == hex_lower(digest@)[i]);
                assert(b[i] == n[i] as u8);
            }
            assert(b[64] == n[64] as u8);
            assert(b[65] == n[65] as u8);
            assert(b[66] == n[66] as u8);
            assert(b[67] == n[67] as u8);
            assert(b.subrange(64, 68) == seq![46u8, 119, 97, 118]);
        }
    }
    name
}

/// The name under which the audio for `text` is cached: the SHA-256 digest of
/// `cache_key_prefix()` followed by the UTF-8 bytes of `text`, as hex, with `.wav`.
pub fn cache_file_name(text: &str) -> (name: String)
    ensures
        name@ == spec_cache_file_name(text@),
        spec_is_safe_cache_file(encode_utf8(name@)),
{
    let mut key: Vec<u8> = vec![
        121u8,
        117,
        110,
        105,
        45,
        103,
        112,
        116,
        45,
        115,
        111,
        118,
        105,
        116,
        115,
        45,
        118,
        49,
        0,
    ];
    assert(key@ == cache_key_prefix());
    let bytes = text.as_bytes();
    let mut i: usize = 0;
    while i < bytes.len()
        invariant
            i <= bytes@.len(),
            bytes@ == encode_utf8(text@),
            key@ == cache_key_prefix() + bytes@.take(i as int),
        decreases bytes@.len() - i,
    {
        key.push(bytes[i]);
        i += 1;
        assert(key@ == cache_key_prefix() + bytes@.take(i as int));
    }
    assert(bytes@.take(i as int) == bytes@);
    let digest = sha256_digest(key.as_slice());
    cache_file_name_from_digest(&digest)
}

/// Law: the cache file name of a text depends on the text alone, and it is
/// always one that the audio route serves.
#[verifier::rlimit(30)]
pub proof fn law_cache_file_name_stable_and_safe(a: Seq<char>, b: Seq<char>)
    requires
        a == b,
    ensures
        spec_cache_file_name(a) == spec_cache_file_name(b),
        spec_sha256(cache_key_prefix() + encode_utf8(a)).len() == 32
            ==> spec_is_safe_cache_file(encode_utf8(spec_cache_file_name(a))),
{
    let d = spec_sha256(cache_key_prefix() + encode_utf8(a));
    if d.len() == 32 {
        lemma_hex_lower_shape(d);
        let n = spec_cache_file_name(a);
        assert(is_ascii_chars(n)) by {
            assert forall|i: int| 0 <= i < n.len() implies (#[trigger] n[i] as u32) < 128 by {
                if i < 64 {
                    assert(n[i] == hex_lower(d)[i]);
                }
            }
        }
        is_ascii_chars_encode_utf8(n);
        let bs = encode_utf8(n);
        assert forall|i: int| 0 <= i < 64 implies is_hex_byte(#[trigger] bs[i]) by {
            assert(n[i] == hex_lower(d)[i]);
            assert(bs[i] == n[i] as u8);
        }
        assert(bs[64] == n[64] as u8);
        assert(bs[65] == n[65] as u8);
        assert(bs[66] == n[66] as u8);
        assert(bs[67] == n[67] as u8);
        assert(bs.subrange(64, 68) == seq![46u8, 119, 97, 118]);
    }
}

/// Law: a name the audio route serves holds no path separator, so it can
/// only name a file directly inside the cache directory.
pub proof fn law_safe_cache_file_has_no_separator(bytes: Seq<u8>)
    requires
        spec_is_safe_cache_file(bytes),
    ensures
        forall|i: int| 0 <= i < bytes.len() ==> #[trigger] bytes[i] != 47u8,
        bytes.len() == 68,
{
    assert forall|i: int| 0 <= i < bytes.len() implies #[trigger] bytes[i] != 47u8 by {
        if i >= 64 {
            assert(bytes[i] == bytes.subrange(64, 68)[i - 64]);
        }
    }
}

fn is_hex_byte_exec(b: u8) -> (r: bool)
    ensures
        r == is_hex_byte(b),
{
    (48 <= b && b <= 57) || (97 <= b && b <= 102) || (65 <= b && b <= 70)
}

/// Whether `file_name` is a cache file name the audio route may serve:
/// 68 bytes long, ending in `.wav`, the first 64 bytes hexadecimal digits.
pub fn is_safe_cache_file(file_name: &str) -> (safe: bool)
    ensures
        safe == spec_is_safe_cache_file(encode_utf8(file_name@)),
{
    let bytes = file_name.as_bytes();
    if bytes.len() != 68 {
        return false;
    }
    if !(bytes[64] == 46 && bytes[65] == 119 && bytes[66] == 97 && bytes[67] == 118) {
        assert(bytes@.subrange(64, 68)[0] == bytes@[64]);
        assert(bytes@.subrange(64, 68)[1] == bytes@[65]);
        assert(bytes@.subrange(64, 68)[2] == bytes@[66]);
        assert(bytes@.subrange(64, 68)[3] == bytes@[67]);
        return false;
    }
    assert(bytes@.subrange(64, 68) == seq![46u8, 119, 97, 118]);
    let mut i: usize = 0;
    while i < 64
        invariant
            bytes@ == encode_utf8(file_name@),
            bytes@.len() == 68,
            i <= 64,
            forall|j: int| 0 <= j < i ==> is_hex_byte(#[trigger] bytes@[j]),
        decreases 64 - i,
    {
        if !is_hex_byte_exec(bytes[i]) {
            assert(!is_hex_byte(bytes@[i as int]));
            return false;
        }
        i += 1;
    }
    true
}

/// Whether a cache file, of the given size when it exists, holds usable audio:
/// more than a bare 44-byte WAV header.
pub fn usable_cached_audio(file_len: Option<u64>) -> (usable: bool)
    ensures
        usable == (file_len matches Some(n) && n > 44),
{
    match file_len {
        Some(n) => n > 44,
        None => false,
    }
}

/// The URL under which the audio of a cached segment is served.
pub fn segment_audio_url(path_prefix: &str, file_name: &str) -> (url: String)
    ensures
        url@ == path_prefix@ + "/api/tts/audio/"@ + file_name@,
{
    let mut url = String::from_str(path_prefix);
    url.append("/api/tts/audio/");
    url.append(file_name);
    url
}

/// A status reply for the local server in state `status`.
pub fn tts_status(status: &'static str, cache_dir: String) -> (r: TtsStatusResponse)
    ensures
        r.status == status,
        r.endpoint == TTS_ENDPOINT,
        r.cache_dir == cache_dir,
        r.bind_host == TTS_HOST,
        r.port == TTS_PORT,
{
    TtsStatusResponse {
        status,
        endpoint: TTS_ENDPOINT,
        cache_dir,
        bind_host: TTS_HOST,
        port: TTS_PORT,
    }
}

/// The status of the server after the bridge checked whether it listens
/// (at once, or within `TTS_START_WAIT_MS` of starting it): `ready` when it
/// listens, else `starting`.
pub fn server_status(listening: bool) -> (status: &'static str)
    ensures
        status@ == (if listening {
            "ready"@
        } else {
            "starting"@
        }),
{
    if listening {
        "ready"
    } else {
        "starting"
    }
}

/// How long a speak request still waits for the server, given the status that
/// asking for it reported: not at all when it is `ready`, else
/// `TTS_READY_WAIT_MS`.
pub fn ready_wait_ms(status: &str) -> (wait: Option<u64>)
    ensures
        wait == (if status@ == "ready"@ {
            None
        } else {
            Some(TTS_READY_WAIT_MS)
        }),
{
    if same_text(status, "ready") {
        None
    } else {
        Some(TTS_READY_WAIT_MS)
    }
}

/// The outcome of waiting for the server: success when it came to listen,
/// else the error that it did not become ready.
pub fn ready_wait_result(listening: bool) -> (r: Result<(), String>)
    ensures
        listening <==> r is Ok,
        r matches Err(e) ==> e@ == "GPT-SoVITS server did not become ready on 127.0.0.1:9880"@,
{
    if listening {
        Ok(())
    } else {
        Err(String::from_str("GPT-SoVITS server did not become ready on 127.0.0.1:9880"))
    }
}

/// The text a speak request asks for: `None` when it is blank, else the text
/// without leading and trailing whitespace.
pub fn speech_request_text(body: &TtsSpeakBody) -> (text: Option<String>)
    ensures
        text is None <==> trim(body.text@).len() == 0,
        text matches Some(t) ==> t@ == trim(body.text@),
{
    let chars = chars_of(body.text.as_str());
    let trimmed = trim_chars(&chars);
    if trimmed.len() == 0 {
        None
    } else {
        Some(string_of(&trimmed))
    }
}

/// A segment of the text to speak, with the name of its cache file.
#[derive(Debug)]
pub struct SpeechSegment {
    pub text: String,
    pub file_name: String,
}

/// The segments to synthesize for `text`, in order, each with its cache file name.
#[verifier::rlimit(30)]
pub fn speech_segments(text: &str) -> (out: Vec<SpeechSegment>)
    ensures
        out@.len() == spec_split_text(text@).len(),
        forall|i: int|
            0 <= i < out@.len() ==> #[trigger] out@[i].text@ == spec_split_text(text@)[i]
                && out@[i].file_name@ == spec_cache_file_name(spec_split_text(text@)[i]),
{
    let segments = split_text(text);
    let mut out: Vec<SpeechSegment> = Vec::new();
    let mut i: usize = 0;
    while i < segments.len()
        invariant
            i <= segments.len(),
            string_views(segments@) == spec_split_text(text@),
            out@.len() == i,
            forall|j: int|
                0 <= j < i ==> #[trigger] out@[j].text@ == spec_split_text(text@)[j]
                    && out@[j].file_name@ == spec_cache_file_name(spec_split_text(text@)[j]),
        decreases segments.len() - i,
    {
        let file_name = cache_file_name(segments[i].as_str());
        let seg_text = segments[i].clone();
        assert(string_views(segments@)[i as int] == segments@[i as int]@);
        assert(seg_text@ == spec_split_text(text@)[i as int]);
        assert(file_name@ == spec_cache_file_name(spec_split_text(text@)[i as int]));
        let ghost before = out@;
        out.push(SpeechSegment { text: seg_text, file_name });
        assert(forall|j: int| 0 <= j < i ==> out@[j] == before[j]);
        i += 1;
    }
    out
}

/// The reply entry for a segment that is served from `path_prefix`.
pub fn segment_response(path_prefix: &str, segment: SpeechSegment, cached: bool) -> (r:
    TtsSegmentResponse)
    ensures
        r.text == segment.text,
        r.url@ == path_prefix@ + "/api/tts/audio/"@ + segment.file_name@,
        r.cached == cached,
{
    let url = segment_audio_url(path_prefix, segment.file_name.as_str());
    TtsSegmentResponse { text: segment.text, url, cached }
}

/// A ready speak reply holding `segments`.
pub fn speak_response(cache_dir: String, segments: Vec<TtsSegmentResponse>) -> (r:
    TtsSpeakResponse)
    ensures
        r.status == "ready",
        r.endpoint == TTS_ENDPOINT,
        r.cache_dir == cache_dir,
        r.segments == segments,
{
    TtsSpeakResponse { status: "ready", endpoint: TTS_ENDPOINT, cache_dir, segments }
}

/// How a synthesis reply of the local server is judged.
#[derive(PartialEq, Eq, Structural, Clone, Copy, Debug)]
pub enum SynthesisCheck {
    /// The reply holds audio.
    Audio,
    /// The server answered with a status other than success.
    HttpError,
    /// The reply is too short to be a WAV file.
    EmptyWav,
}

/// Judges a synthesis reply by its status and its body's length.
pub fn check_synthesis_reply(status_success: bool, body_len: usize) -> (c: SynthesisCheck)
    ensures
        c == (if !status_success {
            SynthesisCheck::HttpError
        } else if body_len < 44 {
            SynthesisCheck::EmptyWav
        } else {
            SynthesisCheck::Audio
        }),
{
    if !status_success {
        SynthesisCheck::HttpError
    } else if body_len < 44 {
        SynthesisCheck::EmptyWav
    } else {
        SynthesisCheck::Audio
    }
}

/// The first missing runtime file of `files` (each with whether it is a
/// file), else the root directory when it is missing.
pub open spec fn spec_check_runtime_files(
    files: Seq<(Seq<char>, bool)>,
    root: Seq<char>,
    root_is_dir: bool,
) -> Result<(), Seq<char>>
    decreases files.len(),
{
    if files.len() == 0 {
        if root_is_dir {
            Ok(())
        } else {
            Err("missing GPT-SoVITS runtime root: "@ + root)
        }
    } else if !files[0].1 {
        Err("missing GPT-SoVITS runtime file: "@ + files[0].0)
    } else {
        spec_check_runtime_files(files.drop_first(), root, root_is_dir)
    }
}

pub open spec fn file_checks_view(v: Seq<(String, bool)>) -> Seq<(Seq<char>, bool)> {
    v.map_values(|p: (String, bool)| (p.0@, p.1))
}

/// Checks that the speech server's runtime is installed: every file of
/// `files` must be a file and `root` a directory.
pub fn check_runtime_files(files: &Vec<(String, bool)>, root: &str, root_is_dir: bool) -> (r:
    Result<(), String>)
    ensures
        match r {
            Ok(()) => spec_check_runtime_files(file_checks_view(files@), root@, root_is_dir) is Ok,
            Err(e) => spec_check_runtime_files(file_checks_view(files@), root@, root_is_dir)
                == Err::<(), Seq<char>>(e@),
        },
{
    let ghost fv = file_checks_view(files@);
    let mut i: usize = 0;
    assert(fv.skip(0) == fv);
    while i < files.len()
        invariant
            fv == file_checks_view(files@),
            i <= files.len(),
            spec_check_runtime_files(fv, root@, root_is_dir) == spec_check_runtime_files(
                fv.skip(i as int),
                root@,
                root_is_dir,
            ),
        decreases files.len() - i,
    {
        assert(fv.skip(i as int)[0] == (files@[i as int].0@, files@[i as int].1));
        assert(fv.skip(i as int).drop_first() == fv.skip(i + 1));
        if !files[i].1 {
            let mut msg = String::from_str("missing GPT-SoVITS runtime file: ");
            msg.append(files[i].0.as_str());
            return Err(msg);
        }
        i += 1;
    }
    assert(fv.skip(i as int).len() == 0);
    if !root_is_dir {
        let mut msg = String::from_str("missing GPT-SoVITS runtime root: ");
        msg.append(root);
        return Err(msg);
    }
    Ok(())
}

} // verus!
