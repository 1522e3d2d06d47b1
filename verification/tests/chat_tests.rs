use std::collections::VecDeque;
use twitch_discord_summarizer::audio::pipeline::{
    capture_mode, ffmpeg_args, CaptureMode, ChunkAssembler, BYTES_PER_SEC,
};
use twitch_discord_summarizer::clock::{Duration, Instant};
use twitch_discord_summarizer::discord::embed::{
    golive_payload, insight_payload, notice_payload, offline_payload, truncate_chars, Embed,
    InsightFields, Payload,
};
use twitch_discord_summarizer::interaction::persona::user_descriptor;
use twitch_discord_summarizer::interaction::registry::Registry;
use twitch_discord_summarizer::interaction::{
    push_recent, recent_context, reply_message, ChatAction, Interaction, InteractionCfg,
    RECENT_CONTEXT,
};
use twitch_discord_summarizer::storage::{push_bounded, MAX_BUFFER};
use twitch_discord_summarizer::stt::SttProvider;
use twitch_discord_summarizer::twitch::chat::{to_event, Badge, Privmsg};
use twitch_discord_summarizer::types::{ChatEvent, KeyMoment, StreamInfo, StreamStatus};

fn ev(id: &str) -> ChatEvent {
    ChatEvent {
        user: id.into(),
        login: id.to_lowercase(),
        user_id: id.into(),
        message_id: "m".into(),
        text: "oi".into(),
        sub_months: 0,
        is_mod: false,
        is_vip: false,
        is_sub: false,
        is_founder: false,
        is_broadcaster: false,
    }
}

#[test]
fn observe_counts_and_caps() {
    let mut r = Registry::new(2);
    r.observe(&ev("a"));
    r.observe(&ev("a"));
    assert_eq!(r.get("a").unwrap().msg_count, 2);
    r.observe(&ev("b"));
    r.observe(&ev("c"));
    assert!(r.len() <= 2, "registry must stay within capacity");
}

#[test]
fn registry_evicts_least_recently_seen() {
    let t = |s: u64| Instant::from_nanos(1_000_000_000_000).plus(Duration::from_secs(s));
    let mut r = Registry::new(2);
    assert!(r.is_empty());
    let _ = r.observe_at(&ev("a"), t(1));
    let _ = r.observe_at(&ev("b"), t(2));
    let _ = r.observe_at(&ev("a"), t(3));
    let _ = r.observe_at(&ev("c"), t(4));
    assert_eq!(r.len(), 2);
    assert!(r.get("b").is_none());
    let a = r.get("a").unwrap();
    assert_eq!(a.msg_count, 2);
    assert_eq!(a.first_seen, t(1));
    assert_eq!(a.last_seen, t(3));
    assert!(r.get("c").is_some());
}

#[test]
fn registry_keeps_highest_tenure_and_latest_flags() {
    let mut r = Registry::new(4);
    let mut e = ev("u");
    e.sub_months = 12;
    e.is_mod = true;
    r.observe(&e);
    let mut e2 = ev("u");
    e2.sub_months = 3;
    r.observe(&e2);
    let p = r.get("u").unwrap();
    assert_eq!(p.sub_months, 12);
    assert!(!p.is_mod);
}

#[test]
fn registry_account_age() {
    let mut r = Registry::new(4);
    assert!(!r.needs_age("x"));
    r.observe(&ev("x"));
    assert!(r.needs_age("x"));
    r.set_age("x", 400);
    assert!(!r.needs_age("x"));
    assert_eq!(r.get("x").unwrap().account_age_days, Some(400));
    // Unknown users are left alone.
    r.set_age("y", 1);
    assert!(r.get("y").is_none());
}

#[test]
fn privmsg_badges_become_flags() {
    let m = Privmsg {
        sender_name: "Ana".into(),
        sender_login: "ana".into(),
        sender_id: "42".into(),
        message_id: "abc".into(),
        message_text: "oi".into(),
        badges: vec![
            Badge { name: "founder".into(), version: "0".into() },
            Badge { name: "vip".into(), version: "1".into() },
        ],
        badge_info: vec![Badge { name: "founder".into(), version: "17".into() }],
    };
    let e = to_event(m);
    assert_eq!(e.user, "Ana");
    assert_eq!(e.user_id, "42");
    assert_eq!(e.sub_months, 17);
    assert!(e.is_sub);
    assert!(e.is_founder);
    assert!(e.is_vip);
    assert!(!e.is_mod);
    assert!(!e.is_broadcaster);
}

#[test]
fn unparsable_tenure_is_zero() {
    let m = Privmsg {
        sender_name: "B".into(),
        sender_login: "b".into(),
        sender_id: "1".into(),
        message_id: "x".into(),
        message_text: "".into(),
        badges: vec![Badge { name: "broadcaster".into(), version: "1".into() }],
        badge_info: vec![Badge { name: "subscriber".into(), version: "muitos".into() }],
    };
    let e = to_event(m);
    assert_eq!(e.sub_months, 0);
    assert!(e.is_broadcaster);
    assert!(!e.is_sub);
}

#[test]
fn descriptor_names_role_and_tenure() {
    let mut e = ev("Ana");
    assert_eq!(user_descriptor(&e), "O usuário Ana (um viewer)");
    e.is_sub = true;
    e.sub_months = 5;
    assert_eq!(user_descriptor(&e), "O usuário Ana (um inscrito, 5 meses de sub)");
    e.is_mod = true;
    assert_eq!(user_descriptor(&e), "O usuário Ana (um moderador, 5 meses de sub)");
}

#[test]
fn recent_context_keeps_last_lines() {
    let mut recent: VecDeque<String> = VecDeque::new();
    for i in 0..(RECENT_CONTEXT + 3) {
        let mut e = ev("u");
        e.text = format!("msg {i}");
        push_recent(&mut recent, &e);
    }
    assert_eq!(recent.len(), RECENT_CONTEXT);
    assert_eq!(recent.front().map(String::as_str), Some("u: msg 3"));
    let ctx = recent_context(&recent);
    assert!(ctx.starts_with("u: msg 3\nu: msg 4\n"));
    assert!(ctx.ends_with("u: msg 17"));
}

fn first_embed(p: &Payload) -> &Embed {
    match p {
        Payload::Embeds(es) => &es[0],
        Payload::Content(_) => panic!("expected embeds"),
    }
}

#[test]
fn insight_payload_has_embed() {
    let insight = InsightFields {
        topics: vec!["valorant".into()],
        mood: String::new(),
        score_text: String::new(),
        key_moments: vec![],
        running_summary: "resumo".into(),
    };
    let v = insight_payload("gaules", &insight);
    assert!(first_embed(&v).title.as_deref().unwrap().contains("gaules"));
}

#[test]
fn insight_payload_fields_and_chunks() {
    let insight = InsightFields {
        topics: vec!["valorant".into(), "clutch".into()],
        mood: "hype".into(),
        score_text: "+0.80".into(),
        key_moments: vec![KeyMoment { timestamp: "12:30".into(), note: "ace".into() }],
        running_summary: "x".repeat(5000),
    };
    match insight_payload("gaules", &insight) {
        Payload::Embeds(es) => {
            assert_eq!(es.len(), 2);
            assert_eq!(es[0].title.as_deref(), Some("📋 Resumo — gaules"));
            assert_eq!(es[0].color, 0x9146FF);
            let fields = es[0].fields.as_ref().unwrap();
            assert_eq!(fields.len(), 3);
            assert_eq!(fields[0].value, "valorant, clutch");
            assert_eq!(fields[1].value, "hype (+0.80)");
            assert!(fields[1].inline);
            assert_eq!(fields[2].value, "• `12:30` ace");
            assert_eq!(es[0].description.as_ref().unwrap().chars().count(), 4096);
            assert_eq!(es[1].description.as_ref().unwrap().chars().count(), 904);
            assert!(es[1].title.is_none());
            assert!(es[1].fields.is_none());
        }
        Payload::Content(_) => panic!("expected embeds"),
    }
}

#[test]
fn golive_and_offline_payloads() {
    let info = StreamInfo {
        title: "  ".into(),
        game: "Valorant".into(),
        started_at: "2024-01-01T00:00:00Z".into(),
        viewers: 1234,
    };
    let p = golive_payload("gaules", &info);
    let e = first_embed(&p);
    assert_eq!(e.title.as_deref(), Some("🔴 gaules está AO VIVO!"));
    assert_eq!(e.url.as_deref(), Some("https://twitch.tv/gaules"));
    let f = e.fields.as_ref().unwrap();
    assert_eq!(f[0].value, "—");
    assert_eq!(f[1].value, "Valorant");
    assert_eq!(f[2].value, "1234");
    assert_eq!(e.timestamp.as_deref(), Some("2024-01-01T00:00:00Z"));

    let off = offline_payload("gaules", 3725);
    let o = first_embed(&off);
    assert_eq!(o.title.as_deref(), Some("⚫ gaules encerrou a stream"));
    assert_eq!(o.description.as_deref(), Some("Duração: 1h02m"));
    assert_eq!(first_embed(&offline_payload("g", 36_000 + 15 * 60)).description.as_deref(), Some("Duração: 10h15m"));
}

#[test]
fn notice_is_cut_to_discord_limit() {
    match notice_payload(&"a".repeat(2500)) {
        Payload::Content(c) => {
            assert_eq!(c.chars().count(), 2000);
            assert!(c.ends_with('…'));
        }
        Payload::Embeds(_) => panic!("expected content"),
    }
    assert_eq!(truncate_chars("abc", 3), "abc");
    assert_eq!(truncate_chars("abcd", 3), "ab…");
}

#[test]
fn capture_mode_selection() {
    assert_eq!(
        capture_mode(&Some("gravacao.wav".to_string()), "ffmpeg-direct"),
        CaptureMode::Replay("gravacao.wav".to_string())
    );
    assert_eq!(capture_mode(&None, "ffmpeg-direct"), CaptureMode::FfmpegDirect);
    assert_eq!(capture_mode(&None, "streamlink"), CaptureMode::Streamlink);
}

#[test]
fn ffmpeg_args_wrap_input() {
    let a = ffmpeg_args(&vec!["-i".to_string(), "pipe:0".to_string()]);
    assert_eq!(
        a,
        vec![
            "-hide_banner", "-loglevel", "error", "-i", "pipe:0", "-vn", "-ac", "1", "-ar",
            "16000", "-f", "s16le", "pipe:1",
        ]
    );
}

#[test]
fn chunk_assembler_hands_out_full_chunks() {
    let mut c = ChunkAssembler::new(1);
    assert_eq!(c.feed(&vec![1u8; BYTES_PER_SEC - 1]), None);
    let out = c.feed(&[7u8, 8u8]).unwrap();
    assert_eq!(out.len(), BYTES_PER_SEC + 1);
    assert_eq!(out[BYTES_PER_SEC - 1], 7);
    assert_eq!(out[BYTES_PER_SEC], 8);
    assert_eq!(c.feed(&[1u8]), None);
}

#[test]
fn stt_provider_selection() {
    match SttProvider::from_config("deepgram", "", "k", "", "pt") {
        SttProvider::Deepgram { api_key, model, language } => {
            assert_eq!(api_key, "k");
            assert_eq!(model, "nova-3");
            assert_eq!(language, "pt");
        }
        _ => panic!("expected deepgram"),
    }
    assert!(matches!(
        SttProvider::from_config("openai", "u", "k", "whisper-1", "pt"),
        SttProvider::OpenAi { .. }
    ));
    assert!(matches!(
        SttProvider::from_config("qualquer", "u", "k", "m", "pt"),
        SttProvider::Mimo { .. }
    ));
}

#[test]
fn storage_buffer_drops_oldest_when_full() {
    let mut buf: Vec<u32> = (0..MAX_BUFFER as u32).collect();
    push_bounded(&mut buf, 9999);
    assert_eq!(buf.len(), MAX_BUFFER);
    assert_eq!(buf[0], 1);
    assert_eq!(*buf.last().unwrap(), 9999);
    let mut small: Vec<u32> = vec![1];
    push_bounded(&mut small, 2);
    assert_eq!(small, vec![1, 2]);
}

#[test]
fn stream_status_online() {
    assert!(StreamStatus::Online.is_online());
    assert!(!StreamStatus::default().is_online());
}

fn icfg(rate: u32) -> InteractionCfg {
    InteractionCfg {
        bot_login: "yoaninha_bot".into(),
        persona: "Persona.".into(),
        chat_rate_per_30s: rate,
        easter_egg_user: "yorods".into(),
        easter_egg_text: "Ó grande".into(),
        reply_max_chars: 200,
    }
}

#[test]
fn interaction_posts_easter_egg_within_rate() {
    let cfg = icfg(1);
    let t0 = Instant::from_nanos(1_000_000_000_000);
    let mut engine = Interaction::new(&cfg, t0);
    let mut e = ev("YoRods");
    e.message_id = "m1".into();
    match engine.on_message(&cfg, &e, true, true, "neutra", "0.0", t0) {
        ChatAction::Send(msg) => {
            assert_eq!(msg.text, "Ó grande");
            assert_eq!(msg.reply_to.as_deref(), Some("m1"));
        }
        other => panic!("unexpected {other:?}"),
    }
    // The only token is spent: a second hit at the same instant is ignored.
    assert!(matches!(
        engine.on_message(&cfg, &e, true, true, "neutra", "0.0", t0),
        ChatAction::Ignore
    ));
    // A roll that missed never posts the easter egg.
    let later = t0.plus(Duration::from_secs(60));
    assert!(matches!(
        engine.on_message(&cfg, &e, false, true, "neutra", "0.0", later),
        ChatAction::Ignore
    ));
}

#[test]
fn interaction_answers_mentions_when_allowed() {
    let cfg = icfg(18);
    let t0 = Instant::from_nanos(1_000_000_000_000);
    let mut engine = Interaction::new(&cfg, t0);
    let mut first = ev("Bia");
    first.text = "boa noite".into();
    assert!(matches!(
        engine.on_message(&cfg, &first, false, true, "animada", "0.5", t0),
        ChatAction::Ignore
    ));
    let mut e = ev("Ana");
    e.text = "@yoaninha_bot oi".into();
    e.message_id = "m2".into();
    // Spending blocked: no reply.
    assert!(matches!(
        engine.on_message(&cfg, &e, false, false, "animada", "0.5", t0),
        ChatAction::Ignore
    ));
    match engine.on_message(&cfg, &e, false, true, "animada", "0.5", t0) {
        ChatAction::Generate { system, user, reply_to } => {
            assert!(system.starts_with("Persona.\n\nVocê é yoaninha_bot"));
            assert!(system.contains("animada (intensidade 0.5)"));
            assert!(user.starts_with(
                "Contexto recente do chat:\nBia: boa noite\nAna: @yoaninha_bot oi\nAna: @yoaninha_bot oi\n\n"
            ));
            assert_eq!(reply_to, "m2");
        }
        other => panic!("unexpected {other:?}"),
    }
    let m = reply_message("  /oi @everyone\nresto", 200, "m2".into()).unwrap();
    assert_eq!(m.text, "oi everyone");
    assert_eq!(m.reply_to.as_deref(), Some("m2"));
    assert!(reply_message("  \n ", 200, "m2".into()).is_none());
}
