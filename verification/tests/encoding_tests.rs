use twitch_discord_summarizer::analysis::llm_cost_micros;
use twitch_discord_summarizer::audio::vad::energy_s16le;
use twitch_discord_summarizer::audio::wav::wav_from_pcm_s16le;
use twitch_discord_summarizer::backoff::{next_random, seed};
use twitch_discord_summarizer::interaction::decision::is_easter_egg_target;
use twitch_discord_summarizer::interaction::persona::build_reply_prompt;
use twitch_discord_summarizer::interaction::registry::{credibility, Registry, TRUST_SCALE};
use twitch_discord_summarizer::stt::{SttProvider, SttRequest};
use twitch_discord_summarizer::types::ChatEvent;
use twitch_discord_summarizer::util::base64_encode;

fn ev(id: &str) -> ChatEvent {
    ChatEvent {
        user: id.into(),
        login: id.to_lowercase(),
        user_id: id.into(),
        message_id: "m".into(),
        text: "oi".into(),
        sub_months: 0,
        is_mod: false,
        is_vip: false,
        is_sub: false,
        is_founder: false,
        is_broadcaster: false,
    }
}

#[test]
fn base64_known_vectors() {
    assert_eq!(base64_encode(b""), "");
    assert_eq!(base64_encode(b"f"), "Zg==");
    assert_eq!(base64_encode(b"fo"), "Zm8=");
    assert_eq!(base64_encode(b"foo"), "Zm9v");
    assert_eq!(base64_encode(b"foob"), "Zm9vYg==");
    assert_eq!(base64_encode(b"fooba"), "Zm9vYmE=");
    assert_eq!(base64_encode(b"foobar"), "Zm9vYmFy");
    assert_eq!(base64_encode(&[0xfb, 0xff, 0xfe]), "+//+");
}

#[test]
fn wav_header_layout() {
    let pcm = [1u8, 2, 3, 4];
    let w = wav_from_pcm_s16le(&pcm, 16_000, 1);
    assert_eq!(w.len(), 48);
    assert_eq!(&w[0..4], b"RIFF");
    assert_eq!(&w[4..8], &40u32.to_le_bytes());
    assert_eq!(&w[8..16], b"WAVEfmt ");
    assert_eq!(&w[16..20], &16u32.to_le_bytes());
    assert_eq!(&w[20..22], &1u16.to_le_bytes());
    assert_eq!(&w[22..24], &1u16.to_le_bytes());
    assert_eq!(&w[24..28], &16_000u32.to_le_bytes());
    assert_eq!(&w[28..32], &32_000u32.to_le_bytes());
    assert_eq!(&w[32..34], &2u16.to_le_bytes());
    assert_eq!(&w[34..36], &16u16.to_le_bytes());
    assert_eq!(&w[36..40], b"data");
    assert_eq!(&w[40..44], &4u32.to_le_bytes());
    assert_eq!(&w[44..], &pcm);
}

#[test]
fn stt_requests_per_provider() {
    let pcm = [0u8, 0];
    let mimo = SttProvider::from_config("mimo", "https://api.x/v1/", "k", "mimo-v2.5-pro", "pt");
    match mimo.request(&pcm) {
        SttRequest::Mimo { url, api_key, model, prompt, audio_b64 } => {
            assert_eq!(url, "https://api.x/v1/chat/completions");
            assert_eq!(api_key, "k");
            assert_eq!(model, "mimo-v2.5-pro");
            assert!(prompt.starts_with("Transcreva"));
            assert!(audio_b64.starts_with("UklGR")); // "RIFF"
            assert_eq!(audio_b64.len(), 64); // 46 bytes -> 4 * 16
        }
        other => panic!("unexpected {other:?}"),
    }
    let dg = SttProvider::from_config("deepgram", "", "segredo", "", "pt");
    match dg.request(&pcm) {
        SttRequest::Deepgram { url, authorization, model, language, wav } => {
            assert_eq!(url, "https://api.deepgram.com/v1/listen");
            assert_eq!(authorization, "Token segredo");
            assert_eq!(model, "nova-3");
            assert_eq!(language, "pt");
            assert_eq!(wav.len(), 46);
        }
        other => panic!("unexpected {other:?}"),
    }
    let oa = SttProvider::from_config("openai", "https://api.openai.com/v1", "k", "m", "pt");
    match oa.request(&pcm) {
        SttRequest::OpenAi { url, language, .. } => {
            assert_eq!(url, "https://api.openai.com/v1/audio/transcriptions");
            assert_eq!(language, "pt");
        }
        other => panic!("unexpected {other:?}"),
    }
}

#[test]
fn stt_prices() {
    let mimo = SttProvider::from_config("mimo", "", "", "", "");
    let oa = SttProvider::from_config("openai", "", "", "", "");
    let dg = SttProvider::from_config("deepgram", "", "", "", "");
    assert_eq!(mimo.cost_per_min_micros(), 0);
    assert_eq!(oa.cost_per_min_micros(), 3000);
    assert_eq!(dg.cost_per_min_micros(), 4300);
    assert_eq!(oa.chunk_cost_micros(45), 2250);
    assert_eq!(dg.chunk_cost_micros(45), 3225);
    assert_eq!(mimo.chunk_cost_micros(45), 0);
}

#[test]
fn llm_cost_from_usage() {
    // 1000 prompt tokens at 1 USD/M plus 200 completion tokens at 3 USD/M.
    assert_eq!(llm_cost_micros(1000, 200), 1600);
    assert_eq!(llm_cost_micros(0, 0), 0);
    assert_eq!(llm_cost_micros(u64::MAX, 1), u64::MAX);
}

#[test]
fn energy_of_pcm() {
    let silence = vec![0u8; 3200];
    assert_eq!(energy_s16le(&silence), (0, 1600));
    let mut pcm = Vec::new();
    for i in 0..800 {
        let s: i16 = if i % 2 == 0 { 8000 } else { -8000 };
        pcm.extend_from_slice(&s.to_le_bytes());
    }
    assert_eq!(energy_s16le(&pcm), (800 * 64_000_000, 800));
    // A trailing odd byte is not a sample.
    assert_eq!(energy_s16le(&[0x00, 0x80, 0x7f]), (32768 * 32768, 1));
}

#[test]
fn easter_egg_target_ignores_ascii_case() {
    assert!(is_easter_egg_target("yorods", "yorods"));
    assert!(is_easter_egg_target("YoRods", "yorods"));
    assert!(!is_easter_egg_target("alguem", "yorods"));
    assert!(!is_easter_egg_target("yorods", ""));
    assert!(!is_easter_egg_target("yorod", "yorods"));
}

#[test]
fn credibility_tiers() {
    let mut bc = ev("s");
    bc.is_broadcaster = true;
    let mut r = Registry::new(4);
    r.observe(&bc);
    assert_eq!(credibility(r.get("s").unwrap()).trust_units, TRUST_SCALE);

    let mut r = Registry::new(4);
    r.observe(&ev("n"));
    let c = credibility(r.get("n").unwrap());
    assert!(2 * c.trust_units < TRUST_SCALE);
    assert_eq!(c.tier, "viewer novato");
}

#[test]
fn long_sub_is_regular() {
    let mut e = ev("u");
    e.is_sub = true;
    e.sub_months = 20;
    let mut r = Registry::new(4);
    r.observe(&e);
    let c = credibility(r.get("u").unwrap());
    assert!(2 * c.trust_units >= TRUST_SCALE);
    assert_eq!(c.tier, "regular");
}

#[test]
fn credibility_exact_boundary() {
    // 0.2 + 7/24 + 16/1825 is just above one half.
    let mut r = Registry::new(4);
    let mut e = ev("v");
    e.sub_months = 7;
    r.observe(&e);
    r.set_age("v", 16);
    let c = credibility(r.get("v").unwrap());
    assert_eq!(c.trust_units, 8760 + 7 * 1825 + 16 * 24);
    assert_eq!(c.tier, "regular");
    r.set_age("v", 15);
    assert_eq!(credibility(r.get("v").unwrap()).tier, "viewer novato");
}

#[test]
fn reply_prompt_layout() {
    let mut e = ev("Ana");
    e.text = "oi bot".into();
    let (system, user) = build_reply_prompt("Persona.", "yoaninha_bot", "animada", "0.7", &e, "a: b");
    assert!(system.starts_with("Persona.\n\nVocê é yoaninha_bot, um bot ASSUMIDO"));
    assert!(system.ends_with("Estado atual da streamer: animada (intensidade 0.7) — ajuste o tom a isso."));
    assert_eq!(
        user,
        "Contexto recente do chat:\na: b\n\nO usuário Ana (um viewer) escreveu: \"oi bot\"\n\nResponda a essa mensagem de forma curta e natural."
    );
}

#[test]
fn generator_steps() {
    assert_ne!(seed(), 0);
    let a = 1u64 ^ (1u64 << 13);
    let b = a ^ (a >> 7);
    let c = b ^ (b << 17);
    assert_eq!(next_random(1), c);
}

#[test]
fn clock_readings_map_to_values() {
    assert_eq!(
        twitch_discord_summarizer::clock::Instant::from_reading(Some(42)).as_nanos(),
        42
    );
    assert_eq!(twitch_discord_summarizer::clock::Instant::from_reading(None).as_nanos(), 0);
    assert_eq!(twitch_discord_summarizer::cost::day_from_reading(Some(86_400_000_000_000 * 3 + 5)), 3);
    assert_eq!(twitch_discord_summarizer::cost::day_from_reading(None), 0);
    assert_eq!(twitch_discord_summarizer::cost::day_from_reading(Some(u128::MAX)), 0);
    assert_eq!(twitch_discord_summarizer::backoff::seed_from_reading(Some(4)), 5);
    assert_eq!(twitch_discord_summarizer::backoff::seed_from_reading(Some(1u128 << 64)), 1);
    assert_eq!(
        twitch_discord_summarizer::backoff::seed_from_reading(None),
        0x9E37_79B9_7F4A_7C15
    );
}
