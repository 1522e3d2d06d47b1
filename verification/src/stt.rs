//! Speech-to-text provider selection, pricing and request building. Default
//! `mimo` (MiMo audio understanding); `openai` and `deepgram` are paid
//! fallbacks. The HTTP exchange itself is made by the app.

use vstd::prelude::*;
use crate::analysis::{endpoint_url, strip_trailing_slashes};
use crate::audio::wav::{wav_from_pcm_s16le, wav_header};
use crate::text::{chars_eq, chars_of};
use crate::util::{base64_encode, base64_spec};

verus! {

/// A configured speech-to-text provider.
#[derive(Debug, Clone)]
pub enum SttProvider {
    Mimo { base_url: String, api_key: String, model: String },
    OpenAi { base_url: String, api_key: String, model: String },
    Deepgram { api_key: String, model: String, language: String },
}

/// The Deepgram model used when none is configured.
pub const DEFAULT_DEEPGRAM_MODEL: &'static str = "nova-3";

/// The provider a configuration selects: `openai` and `deepgram` by name,
/// anything else MiMo; Deepgram falls back to its default model when none
/// is given.
pub open spec fn provider_spec(
    provider: Seq<char>,
    base_url: Seq<char>,
    api_key: Seq<char>,
    model: Seq<char>,
    language: Seq<char>,
    p: SttProvider,
) -> bool {
    if provider == "openai"@ {
        p matches SttProvider::OpenAi { base_url: b, api_key: k, model: m } && b@ == base_url
            && k@ == api_key && m@ == model
    } else if provider == "deepgram"@ {
        p matches SttProvider::Deepgram { api_key: k, model: m, language: l } && k@ == api_key
            && m@ == (if model.len() == 0 {
            DEFAULT_DEEPGRAM_MODEL@
        } else {
            model
        }) && l@ == language
    } else {
        p matches SttProvider::Mimo { base_url: b, api_key: k, model: m } && b@ == base_url
            && k@ == api_key && m@ == model
    }
}

impl SttProvider {
    /// Selects and configures a provider (see `provider_spec`).
    pub fn from_config(
        provider: &str,
        base_url: &str,
        api_key: &str,
        model: &str,
        language: &str,
    ) -> (p: SttProvider)
        ensures
            provider_spec(provider@, base_url@, api_key@, model@, language@, p),
    {
        let name = chars_of(provider);
        if chars_eq(name.as_slice(), chars_of("openai").as_slice()) {
            SttProvider::OpenAi {
                base_url: base_url.to_owned(),
                api_key: api_key.to_owned(),
                model: model.to_owned(),
            }
        } else if chars_eq(name.as_slice(), chars_of("deepgram").as_slice()) {
            SttProvider::Deepgram {
                api_key: api_key.to_owned(),
                model: if model.is_empty() {
                    DEFAULT_DEEPGRAM_MODEL.to_owned()
                } else {
                    model.to_owned()
                },
                language: language.to_owned(),
            }
        } else {
            SttProvider::Mimo {
                base_url: base_url.to_owned(),
                api_key: api_key.to_owned(),
                model: model.to_owned(),
            }
        }
    }
}

/// The instruction sent with the audio to MiMo.
pub const MIMO_PROMPT: &'static str = "Transcreva o áudio em português. Responda apenas com a transcrição, sem comentários.";

/// The Deepgram transcription endpoint.
pub const DEEPGRAM_URL: &'static str = "https://api.deepgram.com/v1/listen";

/// Sample rate of the PCM handed to the providers.
pub const STT_SAMPLE_RATE: u32 = 16_000;

/// One transcription request, ready to send.
#[derive(Debug)]
pub enum SttRequest {
    /// Chat-completions JSON with the WAV inlined as Base64, and the prompt.
    Mimo { url: String, api_key: String, model: String, prompt: String, audio_b64: String },
    /// Multipart form: model, language and the WAV file.
    OpenAi { url: String, api_key: String, model: String, language: String, wav: Vec<u8> },
    /// The WAV as body, with model, language and punctuation in the query.
    Deepgram { url: String, authorization: String, model: String, language: String, wav: Vec<u8> },
}

/// The WAV file for 16 kHz mono PCM.
pub open spec fn stt_wav(pcm: Seq<u8>) -> Seq<u8> {
    wav_header(pcm.len() as int, STT_SAMPLE_RATE as int, 1) + pcm
}

/// The request provider `p` makes for the PCM `pcm`.
pub open spec fn request_spec(p: SttProvider, pcm: Seq<u8>, r: SttRequest) -> bool {
    match p {
        SttProvider::Mimo { base_url, api_key, model } => r matches SttRequest::Mimo {
            url,
            api_key: k,
            model: m,
            prompt,
            audio_b64,
        } && url@ == strip_trailing_slashes(base_url@) + "/chat/completions"@ && k@ == api_key@
            && m@ == model@ && prompt@ == MIMO_PROMPT@ && audio_b64@ == base64_spec(stt_wav(pcm)),
        SttProvider::OpenAi { base_url, api_key, model } => r matches SttRequest::OpenAi {
            url,
            api_key: k,
            model: m,
            language,
            wav,
        } && url@ == strip_trailing_slashes(base_url@) + "/audio/transcriptions"@ && k@ == api_key@
            && m@ == model@ && language@ == "pt"@ && wav@ == stt_wav(pcm),
        SttProvider::Deepgram { api_key, model, language } => r matches SttRequest::Deepgram {
            url,
            authorization,
            model: m,
            language: l,
            wav,
        } && url@ == DEEPGRAM_URL@ && authorization@ == "Token "@ + api_key@ && m@ == model@ && l@
            == language@ && wav@ == stt_wav(pcm),
    }
}

/// Price per minute of audio in micro-dollars: MiMo bills prepaid tokens
/// (no marginal cash cost), OpenAI 0.003 USD, Deepgram 0.0043 USD.
pub open spec fn per_min_micros(p: SttProvider) -> nat {
    match p {
        SttProvider::Mimo { .. } => 0,
        SttProvider::OpenAi { .. } => 3000,
        SttProvider::Deepgram { .. } => 4300,
    }
}

impl SttProvider {
    /// Approximate price per minute of audio, in micro-dollars.
    pub fn cost_per_min_micros(&self) -> (c: u64)
        ensures
            c == per_min_micros(*self),
    {
        match self {
            SttProvider::Mimo { .. } => 0,
            SttProvider::OpenAi { .. } => 3000,
            SttProvider::Deepgram { .. } => 4300,
        }
    }

    /// Approximate price of a chunk of `secs` seconds, in micro-dollars
    /// (rounded down).
    pub fn chunk_cost_micros(&self, secs: u32) -> (c: u64)
        ensures
            c == per_min_micros(*self) * secs / 60,
    {
        let per_min = self.cost_per_min_micros();
        per_min * (secs as u64) / 60
    }

    /// The request that transcribes `pcm` (16 kHz mono s16le).
    pub fn request(&self, pcm: &[u8]) -> (r: SttRequest)
        requires
            pcm@.len() + 36 <= u32::MAX,
        ensures
            request_spec(*self, pcm@, r),
    {
        let wav = wav_from_pcm_s16le(pcm, STT_SAMPLE_RATE, 1);
        match self {
            SttProvider::Mimo { base_url, api_key, model } => SttRequest::Mimo {
                url: endpoint_url(base_url.as_str(), "/chat/completions"),
                api_key: api_key.clone(),
                model: model.clone(),
                prompt: MIMO_PROMPT.to_owned(),
                audio_b64: base64_encode(wav.as_slice()),
            },
            SttProvider::OpenAi { base_url, api_key, model } => SttRequest::OpenAi {
                url: endpoint_url(base_url.as_str(), "/audio/transcriptions"),
                api_key: api_key.clone(),
                model: model.clone(),
                language: "pt".to_owned(),
                wav,
            },
            SttProvider::Deepgram { api_key, model, language } => {
                let mut authorization = "Token ".to_owned();
                authorization.append(api_key.as_str());
                SttRequest::Deepgram {
                    url: DEEPGRAM_URL.to_owned(),
                    authorization,
                    model: model.clone(),
                    language: language.clone(),
                    wav,
                }
            },
        }
    }
}

} // verus!
