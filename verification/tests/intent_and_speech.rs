use ollama_chat::speech::{voice_step, SILENCE_TIMEOUT_MS};
use ollama_chat::intent::{detect_search_intent, is_likely_domain, search_intent_outcome, IntentOutcome};
use ollama_chat::speech::{
    enough_audio, fresh_transcript, is_meaningful_speech, join_transcript, parse_progress_line,
    samples_to_drop,
};
use ollama_chat::system::{expand_archive_command, is_windows_11_build, phi4_listed};

#[test]
fn search_command_takes_rest_of_text() {
    assert_eq!(detect_search_intent("Such nach Rust Tutorials"), Some("Rust Tutorials".to_string()));
    assert_eq!(detect_search_intent("bitte suche nach  Katzen "), Some("Katzen".to_string()));
    assert_eq!(detect_search_intent("Kannst du mal google wetter berlin"), Some("wetter berlin".to_string()));
}

#[test]
fn empty_search_command_falls_through() {
    assert_eq!(detect_search_intent("such nach   "), None);
}

#[test]
fn domain_after_preposition_is_fetched() {
    assert_eq!(
        detect_search_intent("Fass die Nachrichten auf heise.de zusammen"),
        Some("WEBFETCH:https://heise.de".to_string())
    );
    assert_eq!(
        detect_search_intent("Was steht auf http://example.org?"),
        Some("WEBFETCH:http://example.org".to_string())
    );
}

#[test]
fn weather_question_names_place() {
    assert_eq!(detect_search_intent("Wie ist das Wetter in Berlin?"), Some("Wetter Berlin".to_string()));
    assert_eq!(
        detect_search_intent("Wie wird das Wetter morgen?"),
        Some("Wetter Wie wird das Wetter morgen".to_string())
    );
}

#[test]
fn news_and_research_search_whole_text() {
    assert_eq!(detect_search_intent("Was gibt es Aktuelles??"), Some("Was gibt es Aktuelles".to_string()));
    assert_eq!(detect_search_intent("Recherchiere Vulkane"), Some("Recherchiere Vulkane".to_string()));
    assert_eq!(detect_search_intent("Suche"), Some("Suche".to_string()));
}

#[test]
fn plain_talk_has_no_intent() {
    assert_eq!(detect_search_intent("Hallo, wie geht es dir?"), None);
    assert!(matches!(search_intent_outcome("Hallo"), IntentOutcome::NoQuery));
}

#[test]
fn lowercase_that_grows_shifts_the_offset() {
    // 'İ' takes two bytes, its lowercase form three: the offset found in the
    // lowercase text lands one byte further in the original.
    assert_eq!(detect_search_intent("İ such nach xyz"), Some("yz".to_string()));
}

#[test]
fn offset_inside_a_character_is_a_fault() {
    assert!(matches!(search_intent_outcome("İ such nach äb"), IntentOutcome::SliceFault));
}

#[test]
fn likely_domains() {
    assert!(is_likely_domain("heise.de"));
    assert!(!is_likely_domain("a.b"));
    assert!(!is_likely_domain("foo bar.de"));
    assert!(!is_likely_domain("localhost"));
    assert!(is_likely_domain("ä.b"));
}

#[test]
fn noise_markers_are_not_speech() {
    assert!(!is_meaningful_speech("   "));
    assert!(!is_meaningful_speech(""));
    assert!(!is_meaningful_speech(" [BLANK_AUDIO] "));
    assert!(!is_meaningful_speech("(Musik) [Music playing]"));
    assert!(!is_meaningful_speech("[Noise]"));
    assert!(is_meaningful_speech(" Hallo Welt "));
}

#[test]
fn progress_lines() {
    assert_eq!(parse_progress_line("whisper_print_progress_callback: progress =  42%"), Some(42));
    assert_eq!(parse_progress_line("progress = 150%"), Some(100));
    assert_eq!(parse_progress_line("progress = +7%"), Some(7));
    assert_eq!(parse_progress_line("progress = 10% progress = 20%"), Some(10));
    assert_eq!(parse_progress_line("no progress here"), None);
    assert_eq!(parse_progress_line("progress = abc"), None);
    assert_eq!(parse_progress_line("progress = 70000%"), None);
}

#[test]
fn transcript_joins_non_blank_lines() {
    let lines = vec!["".to_string(), " Hallo".to_string(), "  ".to_string(), "Welt ".to_string()];
    assert_eq!(join_transcript(&lines), "Hallo Welt");
    assert_eq!(join_transcript(&vec![]), "");
}

#[test]
fn transcript_buffer_limits() {
    assert_eq!(samples_to_drop(1_440_000), 0);
    assert_eq!(samples_to_drop(1_440_010), 10);
    assert!(!enough_audio(15_999));
    assert!(enough_audio(16_000));
}

#[test]
fn fresh_transcripts_only() {
    assert_eq!(fresh_transcript(" neu ", "alt"), Some("neu".to_string()));
    assert_eq!(fresh_transcript(" alt ", "alt"), None);
    assert_eq!(fresh_transcript("  ", ""), None);
}

#[test]
fn windows_builds() {
    assert!(is_windows_11_build("22631"));
    assert!(is_windows_11_build("22000"));
    assert!(is_windows_11_build("+22000"));
    assert!(!is_windows_11_build("19045"));
    assert!(!is_windows_11_build("abc"));
    assert!(!is_windows_11_build(""));
    assert!(!is_windows_11_build("4294967296"));
    assert!(!is_windows_11_build(" 22631"));
}

#[test]
fn model_listing() {
    assert!(phi4_listed(b"NAME          ID\nphi4:latest   ac896e5b8b34\n"));
    assert!(!phi4_listed(b"NAME  ID\nllama3:latest x\n"));
    assert!(phi4_listed(&[0xff, b'p', b'h', b'i', b'4']));
}

#[test]
fn archive_command() {
    assert_eq!(
        expand_archive_command("a.zip", "out"),
        "Expand-Archive -Path 'a.zip' -DestinationPath 'out' -Force"
    );
}

#[test]
fn voice_steps() {
    let quiet = voice_step(false, false, 5000);
    assert!(!quiet.speaking && !quiet.keep && !quiet.done);
    let loud = voice_step(false, true, 0);
    assert!(loud.speaking && loud.keep && !loud.done);
    let pause = voice_step(true, false, SILENCE_TIMEOUT_MS - 1);
    assert!(pause.speaking && pause.keep && !pause.done);
    let end = voice_step(true, false, SILENCE_TIMEOUT_MS);
    assert!(end.keep && end.done);
}
