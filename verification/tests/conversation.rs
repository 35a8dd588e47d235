use ollama_chat::chat::{classify_input, discussion_context, exchange, Conversation, UserInput};
use ollama_chat::session::{Action, ChatView, Event, Phase, Session, COOLDOWN_MS, NO_SPEECH_PAUSE_MS};
use ollama_chat::stream::{line_contents, stream_lines, ReplyState, StreamLine};
use ollama_chat::view::{centered_lengths, chat_lines, chat_scroll, vu_frame_index, vu_frame_len, wrap_width};
use ollama_chat::session::ChatEntry;

fn roles(c: &Conversation) -> Vec<(String, String)> {
    c.to_messages().into_iter().map(|m| (m.role, m.content)).collect()
}

#[test]
fn history_starts_with_system_prompt() {
    let mut c = Conversation::new("Sei nett.");
    c.push_user("Hallo".to_string());
    c.push_assistant("Hi".to_string());
    let r = roles(&c);
    assert_eq!(r[0], ("system".to_string(), "Sei nett.".to_string()));
    assert_eq!(r.len(), 3);
}

#[test]
fn search_context_is_dropped_after_reply() {
    let mut c = Conversation::new("");
    c.push_user("Wetter Berlin".to_string());
    c.push_search_context("Wetter Berlin", "Sonnig");
    assert_eq!(roles(&c)[2].1, "Web search result for 'Wetter Berlin':\nSonnig");
    c.push_assistant("Es ist sonnig.".to_string());
    c.drop_search_context();
    let r = roles(&c);
    assert_eq!(r.len(), 3);
    assert_eq!(r[1], ("user".to_string(), "Wetter Berlin".to_string()));
    assert_eq!(r[2], ("assistant".to_string(), "Es ist sonnig.".to_string()));
}

#[test]
fn search_context_stays_without_reply() {
    let mut c = Conversation::new("");
    c.push_user("q".to_string());
    c.push_search_context("q", "r");
    c.drop_search_context();
    assert_eq!(roles(&c).len(), 3);
}

#[test]
fn single_exchange_and_discussion() {
    let m = exchange("Lehrer", "Frage");
    assert_eq!(m.len(), 2);
    assert_eq!((m[0].role.as_str(), m[0].content.as_str()), ("system", "Lehrer"));
    assert_eq!((m[1].role.as_str(), m[1].content.as_str()), ("user", "Frage"));
    assert_eq!(discussion_context("eins", "zwei"), "A:\neins\n\nB:\nzwei");
}

#[test]
fn typed_input() {
    assert!(matches!(classify_input("EXIT\n"), UserInput::Quit));
    assert!(matches!(classify_input(" Exit "), UserInput::Quit));
    assert!(matches!(classify_input("   \n"), UserInput::Skip));
    assert!(matches!(classify_input(" hallo \n"), UserInput::Send(s) if s == "hallo"));
    assert!(matches!(classify_input("exits"), UserInput::Send(_)));
}

#[test]
fn chunk_lines() {
    let ls = stream_lines(b"{\"a\":1}\n\n  \n{\"b\":2}\r\n{\"c\"");
    assert_eq!(ls, vec!["{\"a\":1}".to_string(), "{\"b\":2}".to_string(), "{\"c\"".to_string()]);
    let ls = stream_lines(b"x\r");
    assert_eq!(ls, vec!["x\r".to_string()]);
    let ls = stream_lines(&[b'a', 0xff, b'\n']);
    assert_eq!(ls, vec!["a\u{FFFD}".to_string()]);
    assert!(stream_lines(b"").is_empty());
}

fn line(content: Option<&str>, done: Option<bool>) -> Option<StreamLine> {
    Some(StreamLine { content: content.map(|s| s.to_string()), done })
}

#[test]
fn contents_until_done() {
    let lines = vec![line(Some("a"), None), None, line(None, Some(false)), line(Some("b"), Some(true)), line(Some("c"), None)];
    assert_eq!(line_contents(&lines, true), vec!["a".to_string(), "b".to_string()]);
    assert_eq!(line_contents(&lines, false), vec!["a".to_string(), "b".to_string(), "c".to_string()]);
}

#[test]
fn reply_is_cut_into_sentences() {
    let mut r = ReplyState::new();
    let long = "Dies ist ein ziemlich langer Satz, der mehr als achtzig Bytes umfasst, damit er gesprochen wird.";
    assert!(r.absorb("Kurz.").is_none());
    let seg = r.absorb(&format!(" `{}`", long)).unwrap();
    assert_eq!(seg, format!("Kurz. {}", long));
    assert!(!seg.contains('`'));
    assert!(r.absorb("```rust\nfn main() {}").is_none());
    assert!(r.absorb(" noch code ").is_none());
    assert!(r.absorb("```").is_none());
    assert!(r.absorb(" Ende").is_none());
    assert_eq!(r.finish(), Some(" Ende".to_string()));
    assert_eq!(r.finish(), None);
    assert!(r.full_text().starts_with("Kurz. `Dies"));
    assert!(r.full_text().ends_with("``` Ende"));
    assert!(!r.is_empty());
}

fn texts(v: &ChatView) -> Vec<(String, String)> {
    v.messages.iter().map(|e| (e.role.clone(), e.content.clone())).collect()
}

#[test]
fn a_turn_with_search() {
    let mut s = Session::new("");
    let mut v = ChatView::new();
    assert!(matches!(s.step(&mut v, Event::Begin { stop: false }), Action::Listen { cooldown_ms } if cooldown_ms == COOLDOWN_MS));
    assert!(matches!(s.step(&mut v, Event::Recorded { ok: true }), Action::SaveWav));
    assert_eq!(v.phase, Phase::Transcribing);
    assert!(matches!(s.step(&mut v, Event::WavSaved(Ok(()))), Action::Transcribe));
    let a = s.step(&mut v, Event::Transcribed(Ok("Wie ist das Wetter in Berlin?".to_string())));
    assert!(matches!(a, Action::Search(q) if q == "Wetter Berlin"));
    assert_eq!(v.status_text, "Web search: Wetter Berlin");
    assert!(v.search_in_progress);
    assert_eq!(v.transcription_progress, 100);
    assert!(matches!(s.step(&mut v, Event::SearchDone("Sonnig".to_string())), Action::SendChat));
    assert_eq!(v.phase, Phase::Thinking);
    assert_eq!(s.messages().len(), 3);
    assert!(matches!(s.step(&mut v, Event::ChatSent(Ok(()))), Action::ReadStream(x) if x.is_empty()));
    assert_eq!(v.phase, Phase::Speaking);
    let chunk = vec![line(Some("Es ist sonnig."), None), line(None, Some(true))];
    assert!(matches!(s.step(&mut v, Event::Chunk(chunk)), Action::ReadStream(x) if x.is_empty()));
    assert_eq!(texts(&v).last().unwrap().1, "Es ist sonnig.");
    assert!(matches!(s.step(&mut v, Event::StreamEnded), Action::FinishSpeech(Some(x)) if x == "Es ist sonnig."));
    assert!(matches!(s.step(&mut v, Event::SpeechDone), Action::EndTurn));
    assert_eq!(v.phase, Phase::Listening);
    let m = s.messages();
    assert_eq!(m.len(), 3);
    assert_eq!(m[2].role, "assistant");
    assert_eq!(texts(&v), vec![
        ("user".to_string(), "Wie ist das Wetter in Berlin?".to_string()),
        ("assistant".to_string(), "Es ist sonnig.".to_string()),
    ]);
    assert!(matches!(s.step(&mut v, Event::Begin { stop: true }), Action::Stop));
}

#[test]
fn failures_and_noise() {
    let mut s = Session::new("p");
    let mut v = ChatView::new();
    assert!(matches!(s.step(&mut v, Event::Recorded { ok: false }), Action::Restart));
    assert!(matches!(s.step(&mut v, Event::WavSaved(Err("disk".to_string()))), Action::Restart));
    assert_eq!(v.error.as_deref(), Some("WAV error: disk"));
    s.step(&mut v, Event::Begin { stop: false });
    assert_eq!(v.error, None);
    assert!(matches!(s.step(&mut v, Event::Transcribed(Err("x".to_string()))), Action::Restart));
    assert_eq!(v.error.as_deref(), Some("STT error: x"));
    let a = s.step(&mut v, Event::Transcribed(Ok(" [BLANK_AUDIO] ".to_string())));
    assert!(matches!(a, Action::Pause { ms } if ms == NO_SPEECH_PAUSE_MS));
    assert!(matches!(s.step(&mut v, Event::Transcribed(Ok("Hallo".to_string()))), Action::SendChat));
    assert!(matches!(s.step(&mut v, Event::ChatSent(Err("down".to_string()))), Action::Restart));
    assert_eq!(v.error.as_deref(), Some("Ollama error: down"));
    assert!(matches!(s.step(&mut v, Event::ChatSent(Ok(()))), Action::ReadStream(_)));
    assert!(matches!(s.step(&mut v, Event::StreamEnded), Action::FinishSpeech(None)));
    s.step(&mut v, Event::SpeechDone);
    assert_eq!(texts(&v), vec![("user".to_string(), "Hallo".to_string())]);
    assert_eq!(s.messages().len(), 2);
}

#[test]
fn long_queries_are_shortened_in_status() {
    let mut s = Session::new("");
    let mut v = ChatView::new();
    let q = "such nach ".to_string() + &"x".repeat(50);
    assert!(matches!(s.step(&mut v, Event::Transcribed(Ok(q))), Action::Search(_)));
    assert_eq!(v.status_text, format!("Web search: {}...", "x".repeat(40)));
    let q2 = "such nach ".to_string() + &"x".repeat(39) + "ää";
    assert!(matches!(s.step(&mut v, Event::Transcribed(Ok(q2))), Action::Crash));
}

#[test]
fn chat_panel_lines() {
    let mut v = ChatView::new();
    v.messages.push(ChatEntry { role: "user".into(), content: "hallo welt wie geht es".into() });
    v.messages.push(ChatEntry { role: "assistant".into(), content: "a\n\nb".into() });
    v.error = Some("kaputt".into());
    let ls = chat_lines(&v, 12).unwrap();
    assert_eq!(ls, vec![
        "You: hallo ", "welt wie ", "geht es", "", "AI: a", "", "b", "", "Error: kaputt",
    ].into_iter().map(String::from).collect::<Vec<_>>());
    let ls0 = chat_lines(&v, 0).unwrap();
    assert_eq!(ls0[0], "You: hallo welt wie geht es");
    let mut w = ChatView::new();
    w.messages.push(ChatEntry { role: "user".into(), content: "aaaä".into() });
    assert_eq!(chat_lines(&w, 9), None);
    assert_eq!(chat_lines(&w, 4), None);
    assert_eq!(chat_lines(&w, 5).unwrap(), vec!["You: ".to_string(), "aaaä".to_string(), String::new()]);
}

#[test]
fn scrolling_and_layout() {
    assert_eq!(chat_scroll(Phase::Listening, 30, 10, 5), (5, 15));
    assert_eq!(chat_scroll(Phase::Listening, 30, 10, 50), (20, 0));
    assert_eq!(chat_scroll(Phase::Thinking, 30, 10, 5), (0, 20));
    assert_eq!(chat_scroll(Phase::Listening, 5, 10, 3), (0, 0));
    assert_eq!(wrap_width(80), 76);
    assert_eq!(wrap_width(3), 0);
    assert_eq!(centered_lengths(40, 50), (10, 20, 10));
    assert_eq!(centered_lengths(101, 70), (15, 70, 15));
    assert_eq!(vu_frame_len(22050, 2), 2204);
    assert_eq!(vu_frame_len(10, 1), 1);
    assert_eq!(vu_frame_index(0, 5), 0);
    assert_eq!(vu_frame_index(149, 5), 2);
    assert_eq!(vu_frame_index(10_000, 5), 4);
}

#[test]
fn a_turn_in_chunks_keeps_the_whole_reply() {
    let mut s = Session::new("sei nett");
    let mut v = ChatView::new();
    assert!(matches!(s.step(&mut v, Event::Transcribed(Ok("Erzähl mir was".to_string()))), Action::SendChat));
    assert!(matches!(s.step(&mut v, Event::ChatSent(Ok(()))), Action::ReadStream(_)));
    let long = "Das ist ein ziemlich langer Satz, der ganz sicher mehr als achtzig Bytes lang ist.";
    assert!(matches!(s.step(&mut v, Event::Chunk(vec![line(Some("Hallo! "), None)])), Action::ReadStream(x) if x.is_empty()));
    let a = s.step(&mut v, Event::Chunk(vec![None, line(Some(long), None)]));
    assert!(matches!(a, Action::ReadStream(x) if x == vec![format!("Hallo! {}", long)]));
    assert!(matches!(s.step(&mut v, Event::Chunk(vec![line(Some(" Ende"), Some(true)), line(Some("nie"), None)])), Action::ReadStream(x) if x.is_empty()));
    assert!(matches!(s.step(&mut v, Event::StreamEnded), Action::FinishSpeech(Some(x)) if x == " Ende"));
    assert!(matches!(s.step(&mut v, Event::SpeechDone), Action::EndTurn));
    let m = s.messages();
    let got: Vec<(String, String)> = m.iter().map(|x| (x.role.clone(), x.content.clone())).collect();
    assert_eq!(got, vec![
        ("system".to_string(), "sei nett".to_string()),
        ("user".to_string(), "Erzähl mir was".to_string()),
        ("assistant".to_string(), format!("Hallo! {} Ende", long)),
    ]);
}

#[test]
fn a_search_turn_without_reply_keeps_the_search_result() {
    let mut s = Session::new("");
    let mut v = ChatView::new();
    assert!(matches!(s.step(&mut v, Event::Transcribed(Ok("google rust".to_string()))), Action::Search(q) if q == "rust"));
    assert!(matches!(s.step(&mut v, Event::SearchDone("nichts".to_string())), Action::SendChat));
    assert!(matches!(s.step(&mut v, Event::ChatSent(Ok(()))), Action::ReadStream(_)));
    assert!(matches!(s.step(&mut v, Event::StreamEnded), Action::FinishSpeech(None)));
    assert!(matches!(s.step(&mut v, Event::SpeechDone), Action::EndTurn));
    let m = s.messages();
    assert_eq!(m.len(), 3);
    assert_eq!(m[2].role, "system");
    assert_eq!(m[2].content, "Web search result for 'rust':\nnichts");
    assert!(texts(&v).iter().all(|(r, _)| r == "user"));
}

#[test]
fn voice_while_speaking_interrupts_the_reply() {
    let mut s = Session::new("");
    let mut v = ChatView::new();
    let a = s.step(&mut v, Event::VoiceHeard);
    assert!(!a.saves_conversation());
    assert!(matches!(a, Action::Restart));
    assert!(matches!(s.step(&mut v, Event::Transcribed(Ok("Erzähl was".to_string()))), Action::SendChat));
    assert!(matches!(s.step(&mut v, Event::ChatSent(Ok(()))), Action::ReadStream(_)));
    assert!(matches!(s.step(&mut v, Event::Chunk(vec![line(Some("Es war einmal"), None)])), Action::ReadStream(_)));
    let a = s.step(&mut v, Event::VoiceHeard);
    assert!(a.saves_conversation());
    assert!(matches!(a, Action::Interrupt));
    assert_eq!(v.phase, Phase::Listening);
    let m = s.messages();
    assert_eq!(m.len(), 3);
    assert_eq!(m[2].content, "Es war einmal");
    assert!(matches!(s.step(&mut v, Event::Recorded { ok: true }), Action::SaveWav));
}
