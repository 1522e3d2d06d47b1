use twitch_discord_summarizer::analysis::{
    endpoint_url, extract_json_object, summary_prompts, JsonSliceError, NO_PRIOR,
    SUMMARY_SYSTEM_HEAD, SUMMARY_SYSTEM_TAIL,
};
use twitch_discord_summarizer::config::{
    duration_secs_setting, log_format_from, normalize_channel, opt, parse_bool_setting,
    parse_dotenv, parse_unsigned_setting, LogFormat,
};
use twitch_discord_summarizer::clock::Duration;
use twitch_discord_summarizer::discord::embed::chunk_text;
use twitch_discord_summarizer::interaction::decision::is_mention;
use twitch_discord_summarizer::interaction::persona::{persona_from, sanitize, DEFAULT_PERSONA};
use twitch_discord_summarizer::text::{
    chars_of, decimal_chars, is_whitespace, join, lines, parse_unsigned_chars, replace,
    to_lowercase, trim,
};
use twitch_discord_summarizer::twitch::hls::pick_audio_only;

#[test]
fn normalizes_bare_login() {
    assert_eq!(normalize_channel("gaules"), "gaules");
    assert_eq!(normalize_channel("  Gaules "), "gaules");
}

#[test]
fn normalizes_full_urls() {
    assert_eq!(normalize_channel("https://twitch.tv/Gaules"), "gaules");
    assert_eq!(normalize_channel("http://www.twitch.tv/gaules/"), "gaules");
    assert_eq!(normalize_channel("twitch.tv/Gaules/?x=1"), "gaules");
}

#[test]
fn chunk_respects_max_and_preserves_content() {
    let text = "uma frase comprida ".repeat(20);
    let chunks = chunk_text(&text, 50);
    assert!(chunks.iter().all(|c| c.chars().count() <= 50));
    let rejoined: String = chunks.concat();
    assert_eq!(rejoined.replace(['\n'], " ").trim(), text.replace(['\n'], " ").trim());
}

#[test]
fn chunk_hard_splits_oversized_token() {
    let text = "x".repeat(120);
    let chunks = chunk_text(&text, 50);
    assert_eq!(chunks.len(), 3);
    assert!(chunks.iter().all(|c| c.chars().count() <= 50));
}

#[test]
fn chunk_breaks_at_word_boundaries() {
    let chunks = chunk_text("aaa bbb ccc", 8);
    assert_eq!(chunks, vec!["aaa bbb ".to_string(), "ccc".to_string()]);
    // Empty text gives one empty chunk; a zero limit acts as one.
    assert_eq!(chunk_text("", 10), vec![String::new()]);
    assert_eq!(chunk_text("ab", 0), vec!["a".to_string(), "b".to_string()]);
}

#[test]
fn detects_mentions() {
    assert!(is_mention("oi @yoaninha_bot tudo bem?", "yoaninha_bot"));
    assert!(is_mention("yoaninha_bot manda ai", "yoaninha_bot"));
    assert!(!is_mention("falando de outra coisa", "yoaninha_bot"));
    assert!(!is_mention("yoaninha_botinho", "yoaninha_bot")); // substring, not a word
    assert!(!is_mention("qualquer coisa", "")); // no bot configured
}

#[test]
fn mentions_ignore_case() {
    assert!(is_mention("Ei YOANINHA_BOT!", "yoaninha_bot"));
    assert!(is_mention("@Yoaninha_Bot", "YOANINHA_bot"));
}

#[test]
fn sanitize_strips_command_prefix_and_caps() {
    assert_eq!(sanitize("/ban alguém", 100), "ban alguém");
    assert_eq!(sanitize("  !comando aqui ", 100), "comando aqui");
    let long = "a".repeat(300);
    assert_eq!(sanitize(&long, 50).chars().count(), 50);
}

#[test]
fn sanitize_takes_first_nonempty_line_and_defuses_mentions() {
    assert_eq!(sanitize("\n\nolá @everyone\nsegunda", 100), "olá everyone");
}

#[test]
fn sanitize_defuses_here_and_handles_empty() {
    assert_eq!(sanitize("oi @here", 100), "oi here");
    assert_eq!(sanitize("  \n \n", 100), "");
    // Cutting may leave trailing space, which is trimmed again.
    assert_eq!(sanitize("abc def", 4), "abc");
}

#[test]
fn persona_falls_back_to_default() {
    assert_eq!(persona_from(None), DEFAULT_PERSONA);
    assert_eq!(persona_from(Some("   \n")), DEFAULT_PERSONA);
    assert_eq!(persona_from(Some("  Sou um bot.\n")), "Sou um bot.");
}

#[test]
fn picks_audio_only_variant() {
    let master = "#EXTM3U\n\
#EXT-X-MEDIA:TYPE=VIDEO,GROUP-ID=\"chunked\",NAME=\"1080p\"\n\
#EXT-X-STREAM-INF:BANDWIDTH=6000000,VIDEO=\"chunked\"\n\
https://cdn.example/1080p.m3u8\n\
#EXT-X-MEDIA:TYPE=VIDEO,GROUP-ID=\"audio_only\",NAME=\"Audio Only\"\n\
#EXT-X-STREAM-INF:BANDWIDTH=160000,VIDEO=\"audio_only\"\n\
https://cdn.example/audio.m3u8\n";
    assert_eq!(
        pick_audio_only(master).as_deref(),
        Some("https://cdn.example/audio.m3u8")
    );
}

#[test]
fn falls_back_to_last_variant_without_audio_only() {
    let master = "#EXTM3U\n\
#EXT-X-STREAM-INF:BANDWIDTH=6000000,VIDEO=\"chunked\"\n\
https://cdn.example/1080p.m3u8\n\
#EXT-X-STREAM-INF:BANDWIDTH=3000000,VIDEO=\"720p\"\n\
https://cdn.example/720p.m3u8\n";
    assert_eq!(
        pick_audio_only(master).as_deref(),
        Some("https://cdn.example/720p.m3u8")
    );
}

#[test]
fn playlist_without_variants_gives_none() {
    assert_eq!(pick_audio_only("#EXTM3U\n#EXT-X-VERSION:3\n"), None);
    assert_eq!(pick_audio_only(""), None);
}

#[test]
fn extracts_json_between_braces() {
    let r = extract_json_object("Aqui está:\n```json\n{\"a\": {\"b\": 1}}\n```");
    assert_eq!(r, Ok("{\"a\": {\"b\": 1}}".to_string()));
    assert_eq!(extract_json_object("{}"), Ok("{}".to_string()));
}

#[test]
fn locates_insight_json_in_replies() {
    let raw = r#"{"topics":["valorant","clutch"],"sentiment":{"mood":"hype","score":0.8},"key_moments":[{"t":"12:30","note":"ace"}],"running_summary":"jogando bem"}"#;
    assert_eq!(extract_json_object(raw), Ok(raw.to_string()));
    let wrapped = "Claro! Aqui está:\n```json\n{\"topics\":[\"x\"],\"running_summary\":\"ok\"}\n```\nespero ajudar";
    assert_eq!(
        extract_json_object(wrapped),
        Ok("{\"topics\":[\"x\"],\"running_summary\":\"ok\"}".to_string())
    );
}

#[test]
fn json_slice_errors() {
    assert_eq!(extract_json_object("sem objeto"), Err(JsonSliceError::NoObject));
    assert_eq!(extract_json_object("{ aberto"), Err(JsonSliceError::NoClosingBrace));
    assert_eq!(extract_json_object("} ao contrário {"), Err(JsonSliceError::MalformedBraces));
}

#[test]
fn summary_prompts_use_placeholder_for_blank_prior() {
    let (system, user) = summary_prompts("gaules", "  ", "[chat] a: b\n");
    assert_eq!(system, format!("{SUMMARY_SYSTEM_HEAD}gaules{SUMMARY_SYSTEM_TAIL}"));
    assert_eq!(user, format!("RESUMO ANTERIOR:\n{NO_PRIOR}\n\nNOVO CONTEÚDO:\n[chat] a: b\n"));
    let (_, user2) = summary_prompts("gaules", "antes", "novo");
    assert_eq!(user2, "RESUMO ANTERIOR:\nantes\n\nNOVO CONTEÚDO:\nnovo");
}

#[test]
fn endpoint_url_strips_trailing_slashes() {
    assert_eq!(endpoint_url("https://api.x/v1//", "/chat"), "https://api.x/v1/chat");
    assert_eq!(endpoint_url("https://api.x/v1", "/chat"), "https://api.x/v1/chat");
}

#[test]
fn settings_parse() {
    assert_eq!(parse_bool_setting(" Yes "), Some(true));
    assert_eq!(parse_bool_setting("OFF"), Some(false));
    assert_eq!(parse_bool_setting("talvez"), None);
    assert_eq!(parse_unsigned_setting(None, 7, 100), Some(7));
    assert_eq!(parse_unsigned_setting(Some(" 42 "), 7, 100), Some(42));
    assert_eq!(parse_unsigned_setting(Some("101"), 7, 100), None);
    assert_eq!(parse_unsigned_setting(Some("4x"), 7, 100), None);
    assert_eq!(duration_secs_setting(None, 300), Some(Duration::from_secs(300)));
    assert_eq!(duration_secs_setting(Some("15"), 300), Some(Duration::from_secs(15)));
    assert_eq!(duration_secs_setting(Some("-1"), 300), None);
    assert_eq!(log_format_from("Pretty"), LogFormat::Text);
    assert_eq!(log_format_from("json"), LogFormat::Json);
    assert_eq!(opt(String::new()), None);
    assert_eq!(opt("x".to_string()), Some("x".to_string()));
}

#[test]
fn dotenv_lines() {
    let env = "# comentário\nA=1\n  B = \"dois\" \n\nC='tres'\nSEM_IGUAL\nD=x=y\n";
    let pairs = parse_dotenv(env);
    let expect: Vec<(String, String)> = vec![
        ("A".into(), "1".into()),
        ("B".into(), "dois".into()),
        ("C".into(), "tres".into()),
        ("D".into(), "x=y".into()),
    ];
    assert_eq!(pairs, expect);
}

#[test]
fn text_helpers() {
    // Lowercasing goes through std's Unicode tables.
    assert_eq!(to_lowercase(&chars_of("ÁbC")), chars_of("ábc"));
    assert_eq!(chars_of("oi"), vec!['o', 'i']);
    // Word splitting for mentions goes through std's alphanumeric test: an
    // accented letter continues a word, punctuation ends it.
    assert!(!is_mention("yoaninha_botá", "yoaninha_bot"));
    assert!(is_mention("yoaninha_bot, oi", "yoaninha_bot"));
    assert!(is_whitespace('\u{a0}'));
    assert!(!is_whitespace('x'));
    assert_eq!(trim(&chars_of("  a b \n")), chars_of("a b"));
    assert_eq!(lines(&chars_of("a\r\nb\n\nc")), vec![chars_of("a"), chars_of("b"), vec![], chars_of("c")]);
    assert_eq!(lines(&chars_of("a\n")), vec![chars_of("a")]);
    assert_eq!(replace(&chars_of("aXbX"), &chars_of("X"), &chars_of("--")), chars_of("a--b--"));
    assert_eq!(join(&vec!["a".to_string(), "b".to_string()], ", "), "a, b");
    assert_eq!(decimal_chars(0), chars_of("0"));
    assert_eq!(decimal_chars(1203), chars_of("1203"));
    assert_eq!(parse_unsigned_chars(&chars_of("0042"), 100), Some(42));
    assert_eq!(parse_unsigned_chars(&chars_of(""), 100), None);
    assert_eq!(parse_unsigned_chars(&chars_of("+5"), 100), Some(5));
    assert_eq!(parse_unsigned_chars(&chars_of("+"), 100), None);
    assert_eq!(parse_unsigned_chars(&chars_of("-5"), 100), None);
}
