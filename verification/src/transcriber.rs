//! What the Whisper engines decide before and after the outside work: the
//! command lines of `ffmpeg` and `whisper-cli`, the fields of the remote
//! request, the API key, and how engine output becomes a transcript.
use vstd::prelude::*;

use crate::errors::{opt_view, TranscriptionError};
use crate::text::{chars_of, lower_ascii_seq, lower_ascii_vec, push_str, string_of, trim};
use crate::value::{path_extension, spec_path_extension, LanguageIso, RawTranscript};

verus! {

// ---------------------------------------------------------------------------
// Local engine
// ---------------------------------------------------------------------------

/// Configuration of the local engine.
#[derive(Debug, Clone)]
pub struct LocalWhisperConfig {
    /// The `whisper-cli` binary (or its path).
    pub binary: String,
    /// The path of the `ggml-*.bin` model.
    pub model_path: String,
    /// The `ffmpeg` binary, to convert compressed audio to WAV.
    pub ffmpeg: String,
    /// Extra arguments for `whisper-cli`.
    pub extra_args: Vec<String>,
}

impl Default for LocalWhisperConfig {
    fn default() -> (r: Self)
        ensures
            r.binary@ == "whisper-cli"@,
            r.model_path@ == "models/ggml-base.bin"@,
            r.ffmpeg@ == "ffmpeg"@,
            r.extra_args@.len() == 0,
    {
        LocalWhisperConfig {
            binary: "whisper-cli".to_owned(),
            model_path: "models/ggml-base.bin".to_owned(),
            ffmpeg: "ffmpeg".to_owned(),
            extra_args: Vec::new(),
        }
    }
}

/// The local engine: runs `whisper-cli` (and `ffmpeg` when needed).
#[derive(Debug, Clone)]
pub struct LocalWhisperEngine {
    pub config: LocalWhisperConfig,
}

/// The characters of each string.
pub open spec fn string_views(v: Seq<String>) -> Seq<Seq<char>> {
    v.map_values(|s: String| s@)
}

fn push_arg(args: &mut Vec<String>, s: &str)
    ensures
        string_views(final(args)@) == string_views(old(args)@).push(s@),
{
    let ghost before = args@;
    args.push(s.to_owned());
    assert(string_views(args@) =~= string_views(before).push(s@));
}

/// The arguments of `ffmpeg` that convert `input` to 16 kHz mono WAV in
/// `wav`.
pub open spec fn ffmpeg_args_spec(input: Seq<char>, wav: Seq<char>) -> Seq<Seq<char>> {
    seq![
        "-y"@,
        "-i"@,
        input,
        "-ar"@,
        "16000"@,
        "-ac"@,
        "1"@,
        "-c:a"@,
        "pcm_s16le"@,
        "-f"@,
        "wav"@,
        wav,
    ]
}

/// The language argument of `whisper-cli`: `auto`, or the code.
pub open spec fn whisper_language_arg(language: Seq<char>) -> Seq<char> {
    if language == "auto"@ {
        "auto"@
    } else {
        language
    }
}

/// The arguments of `whisper-cli` for the WAV `wav`, writing its text
/// next to `out_base`, followed by the configured extra arguments.
pub open spec fn whisper_args_spec(
    config: LocalWhisperConfig,
    wav: Seq<char>,
    language: Seq<char>,
    out_base: Seq<char>,
) -> Seq<Seq<char>> {
    seq![
        "-m"@,
        config.model_path@,
        "-f"@,
        wav,
        "--output-txt"@,
        "--no-prints"@,
        "-of"@,
        out_base,
        "-l"@,
        whisper_language_arg(language),
    ] + string_views(config.extra_args@)
}

/// Whether the path text names a WAV file (its extension, in any ASCII
/// case, is `wav`).
pub open spec fn is_wav_spec(p: Seq<char>) -> bool {
    match spec_path_extension(p) {
        Some(e) => lower_ascii_seq(e) == "wav"@,
        None => false,
    }
}

impl LocalWhisperEngine {
    pub fn new(config: LocalWhisperConfig) -> (r: Self)
        ensures
            r.config == config,
    {
        LocalWhisperEngine { config }
    }

    /// The arguments of the `ffmpeg` run that converts `input` to WAV.
    pub fn ffmpeg_args(input: &str, wav: &str) -> (r: Vec<String>)
        ensures
            string_views(r@) == ffmpeg_args_spec(input@, wav@),
    {
        let mut args: Vec<String> = Vec::new();
        push_arg(&mut args, "-y");
        push_arg(&mut args, "-i");
        push_arg(&mut args, input);
        push_arg(&mut args, "-ar");
        push_arg(&mut args, "16000");
        push_arg(&mut args, "-ac");
        push_arg(&mut args, "1");
        push_arg(&mut args, "-c:a");
        push_arg(&mut args, "pcm_s16le");
        push_arg(&mut args, "-f");
        push_arg(&mut args, "wav");
        push_arg(&mut args, wav);
        assert(string_views(args@) =~= ffmpeg_args_spec(input@, wav@));
        args
    }

    /// The arguments of the `whisper-cli` run on `wav`.
    pub fn whisper_args(&self, wav: &str, language: &LanguageIso, out_base: &str) -> (r: Vec<
        String,
    >)
        ensures
            string_views(r@) == whisper_args_spec(self.config, wav@, language@, out_base@),
    {
        let mut args: Vec<String> = Vec::new();
        push_arg(&mut args, "-m");
        push_arg(&mut args, self.config.model_path.as_str());
        push_arg(&mut args, "-f");
        push_arg(&mut args, wav);
        push_arg(&mut args, "--output-txt");
        push_arg(&mut args, "--no-prints");
        push_arg(&mut args, "-of");
        push_arg(&mut args, out_base);
        push_arg(&mut args, "-l");
        if language.is_auto() {
            push_arg(&mut args, "auto");
        } else {
            push_arg(&mut args, language.as_str());
        }
        let ghost head = string_views(args@);
        let mut i: usize = 0;
        assert(string_views(self.config.extra_args@).take(0) == Seq::<Seq<char>>::empty());
        while i < self.config.extra_args.len()
            invariant
                i <= self.config.extra_args.len(),
                string_views(args@) == head + string_views(self.config.extra_args@).take(i as int),
            decreases self.config.extra_args.len() - i,
        {
            push_arg(&mut args, self.config.extra_args[i].as_str());
            assert(string_views(self.config.extra_args@).take(i + 1) == string_views(
                self.config.extra_args@,
            ).take(i as int).push(self.config.extra_args@[i as int]@));
            i = i + 1;
        }
        assert(string_views(self.config.extra_args@).take(self.config.extra_args.len() as int)
            == string_views(self.config.extra_args@));
        assert(head =~= seq![
            "-m"@,
            self.config.model_path@,
            "-f"@,
            wav@,
            "--output-txt"@,
            "--no-prints"@,
            "-of"@,
            out_base@,
            "-l"@,
            whisper_language_arg(language@),
        ]);
        args
    }

    /// Whether the audio at `path` is already WAV (`whisper-cli` reads only
    /// WAV; other formats are converted first).
    pub fn is_wav(path: &str) -> (r: bool)
        ensures
            r == is_wav_spec(path@),
    {
        match path_extension(path) {
            Some(e) => {
                let v = chars_of(e.as_str());
                let l = lower_ascii_vec(&v);
                crate::text::chars_eq_str(&l, "wav")
            },
            None => false,
        }
    }

    /// The transcript in the text that `whisper-cli` wrote: trimmed; blank
    /// text is an empty transcript.
    pub fn transcript_from_output(text: &str) -> (r: Result<RawTranscript, TranscriptionError>)
        ensures
            match r {
                Ok(t) => trim(text@).len() > 0 && t@ == trim(text@),
                Err(e) => trim(text@).len() == 0 && e is EmptyTranscript,
            },
    {
        transcript_from_text(text)
    }
}

/// A transcript from engine text: trimmed; blank text is an empty
/// transcript.
fn transcript_from_text(text: &str) -> (r: Result<RawTranscript, TranscriptionError>)
    ensures
        match r {
            Ok(t) => trim(text@).len() > 0 && t@ == trim(text@),
            Err(e) => trim(text@).len() == 0 && e is EmptyTranscript,
        },
{
    match RawTranscript::new(text) {
        Ok(t) => Ok(t),
        Err(_) => Err(TranscriptionError::EmptyTranscript),
    }
}

// ---------------------------------------------------------------------------
// Remote engine
// ---------------------------------------------------------------------------

/// Configuration of the remote engine.
#[derive(Debug, Clone)]
pub struct RemoteWhisperConfig {
    /// URL of the transcription endpoint.
    pub endpoint: String,
    /// API key (`Authorization: Bearer`); when absent it is read from the
    /// variable `api_key_env`.
    pub api_key: Option<String>,
    /// Name of the environment variable that holds the key.
    pub api_key_env: String,
    /// Model to ask for (`whisper-1`).
    pub model: String,
    /// Seconds before the request is given up.
    pub timeout_secs: u64,
}

impl Default for RemoteWhisperConfig {
    fn default() -> (r: Self)
        ensures
            r.endpoint@ == "https://api.openai.com/v1/audio/transcriptions"@,
            r.api_key is None,
            r.api_key_env@ == "OPENAI_API_KEY"@,
            r.model@ == "whisper-1"@,
            r.timeout_secs == 120,
    {
        RemoteWhisperConfig {
            endpoint: "https://api.openai.com/v1/audio/transcriptions".to_owned(),
            api_key: None,
            api_key_env: "OPENAI_API_KEY".to_owned(),
            model: "whisper-1".to_owned(),
            timeout_secs: 120,
        }
    }
}

/// The API key: the configured one, else the value of the environment
/// variable, else an engine error that names the variable.
pub open spec fn api_key_spec(config: RemoteWhisperConfig, env_value: Option<Seq<char>>) -> Result<
    Seq<char>,
    Seq<char>,
> {
    match config.api_key {
        Some(k) => Ok(k@),
        None => match env_value {
            Some(v) => Ok(v),
            None => Err(
                "missing API key: set "@ + config.api_key_env@ + " or provide api_key"@,
            ),
        },
    }
}

impl RemoteWhisperConfig {
    /// The API key, given the value of the variable `api_key_env` (`None`
    /// when it is unset or not text).
    pub fn api_key(&self, env_value: Option<String>) -> (r: Result<String, TranscriptionError>)
        ensures
            match api_key_spec(*self, opt_view(env_value)) {
                Ok(k) => r matches Ok(s) && s@ == k,
                Err(m) => r matches Err(TranscriptionError::Engine(s)) && s@ == m,
            },
    {
        match &self.api_key {
            Some(k) => Ok(k.clone()),
            None => match env_value {
                Some(v) => Ok(v),
                None => {
                    let mut out: Vec<char> = Vec::new();
                    push_str(&mut out, "missing API key: set ");
                    push_str(&mut out, self.api_key_env.as_str());
                    push_str(&mut out, " or provide api_key");
                    Err(TranscriptionError::Engine(string_of(&out)))
                },
            },
        }
    }

    /// The `language` field of the request: absent for `auto`.
    pub fn language_field(language: &LanguageIso) -> (r: Option<String>)
        ensures
            opt_view(r) == if language@ == "auto"@ {
                None
            } else {
                Some(language@)
            },
    {
        if language.is_auto() {
            None
        } else {
            Some(language.as_str().to_owned())
        }
    }

    /// The transcript in the `text` of the response: trimmed; blank text is
    /// an empty transcript.
    pub fn transcript_from_response(text: &str) -> (r: Result<RawTranscript, TranscriptionError>)
        ensures
            match r {
                Ok(t) => trim(text@).len() > 0 && t@ == trim(text@),
                Err(e) => trim(text@).len() == 0 && e is EmptyTranscript,
            },
    {
        transcript_from_text(text)
    }
}

} // verus!
