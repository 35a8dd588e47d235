//! One conversation turn after another: what the assistant shows and does next
//! for each thing that happens (recording, transcribing, searching, replying).

use vstd::prelude::*;
use crate::chat::{Conversation, drops_context, search_context};
use crate::intent::{IntentOutcome, search_intent, search_intent_outcome};
use crate::speech::{is_meaningful_speech, meaningful_speech};
use crate::stream::{ReplyState, StreamLine, line_contents, pending_after, reply_contents, string_views};
use crate::text::{
    byte_len, byte_len_at_least, chars_of, concat_vec, head_to_byte, head_to_byte_vec, lowercase,
    string_of,
};

verus! {

/// What the assistant is busy with.
#[derive(Clone, Copy, Debug, PartialEq, Eq, Structural)]
pub enum Phase {
    Listening,
    Transcribing,
    Thinking,
    Speaking,
}

/// A line of the chat shown to the user.
pub struct ChatEntry {
    pub role: String,
    pub content: String,
}

/// What the user sees of the conversation and the assistant's state.
pub struct ChatView {
    pub messages: Vec<ChatEntry>,
    pub phase: Phase,
    pub status_text: String,
    pub error: Option<String>,
    pub transcription_progress: u16,
    pub search_in_progress: bool,
    pub search_query: String,
    pub search_result: String,
}

/// The content of a `ChatView`.
pub struct ChatViewModel {
    pub messages: Seq<(Seq<char>, Seq<char>)>,
    pub phase: Phase,
    pub status: Seq<char>,
    pub error: Option<Seq<char>>,
    pub progress: u16,
    pub searching: bool,
    pub query: Seq<char>,
    pub result: Seq<char>,
}

pub open spec fn entries_view(es: Seq<ChatEntry>) -> Seq<(Seq<char>, Seq<char>)> {
    es.map_values(|e: ChatEntry| (e.role@, e.content@))
}

pub open spec fn opt_text(o: Option<String>) -> Option<Seq<char>> {
    match o {
        Some(s) => Some(s@),
        None => None,
    }
}

impl View for ChatView {
    type V = ChatViewModel;

    open spec fn view(&self) -> ChatViewModel {
        ChatViewModel {
            messages: entries_view(self.messages@),
            phase: self.phase,
            status: self.status_text@,
            error: opt_text(self.error),
            progress: self.transcription_progress,
            searching: self.search_in_progress,
            query: self.search_query@,
            result: self.search_result@,
        }
    }
}

fn text(s: &str) -> (r: String)
    ensures
        r@ == s@,
{
    s.to_owned()
}

impl ChatView {
    /// The view at start: no messages, listening.
    pub fn new() -> (v: ChatView)
        ensures
            v@ == (ChatViewModel {
                messages: Seq::empty(),
                phase: Phase::Listening,
                status: "Listening..."@,
                error: None,
                progress: 0,
                searching: false,
                query: Seq::empty(),
                result: Seq::empty(),
            }),
    {
        let v = ChatView {
            messages: Vec::new(),
            phase: Phase::Listening,
            status_text: text("Listening..."),
            error: None,
            transcription_progress: 0,
            search_in_progress: false,
            search_query: String::new(),
            search_result: String::new(),
        };
        assert(entries_view(v.messages@) =~= Seq::empty());
        v
    }
}

/// The view while listening.
pub open spec fn listening(v: ChatViewModel) -> ChatViewModel {
    ChatViewModel { phase: Phase::Listening, status: "Listening..."@, ..v }
}

/// The view after a failed step, listening again and showing the error.
pub open spec fn failed(v: ChatViewModel, e: Seq<char>) -> ChatViewModel {
    ChatViewModel { error: Some(e), ..listening(v) }
}

/// The view while waiting for the model.
pub open spec fn thinking(v: ChatViewModel) -> ChatViewModel {
    ChatViewModel { phase: Phase::Thinking, status: "Thinking..."@, ..v }
}

/// The status shown during a web search: the query, cut to 40 bytes with "..."
/// where longer; `None` where byte 40 falls inside a character.
pub open spec fn search_status(q: Seq<char>) -> Option<Seq<char>> {
    if byte_len(q) > 40 {
        match head_to_byte(q, 40) {
            Some(h) => Some("Web search: "@ + h + "..."@),
            None => None,
        }
    } else {
        Some("Web search: "@ + q)
    }
}

/// Something that happened, reported by the program that runs the assistant.
pub enum Event {
    /// A new turn begins; `stop` when the user asked to quit.
    Begin { stop: bool },
    /// Recording ended; `ok` when audio was recorded.
    Recorded { ok: bool },
    /// The recording was saved as a WAV file, or the error.
    WavSaved(Result<(), String>),
    /// The transcript, or the transcriber's error.
    Transcribed(Result<String, String>),
    /// The web search result.
    SearchDone(String),
    /// The chat request was sent, or the error.
    ChatSent(Result<(), String>),
    /// The parsed lines of a received chunk of the reply.
    Chunk(Vec<Option<StreamLine>>),
    /// The reply stream ended.
    StreamEnded,
    /// All segments have been spoken.
    SpeechDone,
    /// The user's voice was heard while the reply was being spoken.
    VoiceHeard,
}

/// Milliseconds to wait before recording, so that the assistant's own voice
/// does not trigger voice detection.
pub const COOLDOWN_MS: u64 = 600;

/// Milliseconds to wait after an utterance that held no speech.
pub const NO_SPEECH_PAUSE_MS: u64 = 500;

/// What to do next.
pub enum Action {
    /// End the conversation.
    Stop,
    /// Wait `cooldown_ms`, then record an utterance.
    Listen { cooldown_ms: u64 },
    /// Save the recording as a WAV file.
    SaveWav,
    /// Transcribe the WAV file (and delete it once transcribed).
    Transcribe,
    /// Wait `ms`, then begin a new turn.
    Pause { ms: u64 },
    /// Begin a new turn.
    Restart,
    /// The turn is over: save the conversation, then begin a new turn.
    EndTurn,
    /// Look up the query on the web.
    Search(String),
    /// Send the conversation history to the model.
    SendChat,
    /// Speak these segments, then read the next chunk of the reply.
    ReadStream(Vec<String>),
    /// Speak the last segment, if any, then wait for speaking to end.
    FinishSpeech(Option<String>),
    /// The turn is cut short: stop speaking and reading the reply, save the
    /// conversation, then take the utterance that is being recorded as the next one.
    Interrupt,
    /// Give up: slicing a text at a byte offset that is no character boundary.
    Crash,
}

/// The assistant's side of the conversation across turns.
pub struct Session {
    history: Conversation,
    query: Option<String>,
    reply: ReplyState,
}

/// The segments spoken and the reply state after taking in `contents` one by one.
pub open spec fn absorb_all(full: Seq<char>, pending: Seq<char>, contents: Seq<Seq<char>>) -> (
    Seq<char>,
    Seq<char>,
    Seq<Seq<char>>,
)
    decreases contents.len(),
{
    if contents.len() == 0 {
        (full, pending, Seq::empty())
    } else {
        let f1 = full + contents[0];
        let (p1, seg) = pending_after(pending, f1, contents[0]);
        let (f2, p2, segs) = absorb_all(f1, p1, contents.drop_first());
        (
            f2,
            p2,
            match seg {
                Some(s) => seq![s] + segs,
                None => segs,
            },
        )
    }
}

impl Session {
    /// The conversation history.
    pub closed spec fn history(&self) -> Seq<(Seq<char>, Seq<char>)> {
        self.history@
    }

    /// The system prompt.
    pub closed spec fn prompt(&self) -> Seq<char> {
        self.history.prompt()
    }

    /// The search query of the current turn, if any.
    pub closed spec fn query(&self) -> Option<Seq<char>> {
        opt_text(self.query)
    }

    /// All reply text received in the current turn.
    pub closed spec fn reply_full(&self) -> Seq<char> {
        self.reply.full()
    }

    /// Reply text of the current turn not yet handed over for speaking.
    pub closed spec fn reply_pending(&self) -> Seq<char> {
        self.reply.pending()
    }

    /// A session whose history holds the system prompt only.
    pub fn new(system_prompt: &str) -> (s: Session)
        ensures
            s.history() == seq![("system"@, system_prompt@)],
            s.prompt() == system_prompt@,
            s.query() is None,
            s.reply_full() == Seq::<char>::empty(),
            s.reply_pending() == Seq::<char>::empty(),
    {
        Session { history: Conversation::new(system_prompt), query: None, reply: ReplyState::new() }
    }

    /// The session is the same in `a` and `b`.
    pub open spec fn same(a: Session, b: Session) -> bool {
        &&& b.history() == a.history()
        &&& b.prompt() == a.prompt()
        &&& b.query() == a.query()
        &&& b.reply_full() == a.reply_full()
        &&& b.reply_pending() == a.reply_pending()
    }

    /// Every session's history begins with the system message holding its prompt.
    pub proof fn law_history_starts_with_prompt(&self)
        ensures
            self.history().len() >= 1,
            self.history()[0] == ("system"@, self.prompt()),
    {
        self.history.lemma_starts_with_prompt();
    }

    /// The history as messages to send to the model.
    pub fn messages(&self) -> (r: Vec<crate::chat::Message>)
        ensures
            crate::chat::messages_view(r@) == self.history(),
    {
        self.history.to_messages()
    }
}


fn set_listening(view: &mut ChatView)
    ensures
        final(view)@ == listening(old(view)@),
{
    view.phase = Phase::Listening;
    view.status_text = text("Listening...");
}

fn set_failed(view: &mut ChatView, prefix: &str, e: &String)
    ensures
        final(view)@ == failed(old(view)@, prefix@ + e@),
{
    set_listening(view);
    let m = concat_vec(&chars_of(prefix), &chars_of(e.as_str()));
    view.error = Some(string_of(&m));
}

fn set_thinking(view: &mut ChatView)
    ensures
        final(view)@ == thinking(old(view)@),
{
    view.phase = Phase::Thinking;
    view.status_text = text("Thinking...");
}

fn push_entry(view: &mut ChatView, role: &str, content: String)
    ensures
        final(view)@ == (ChatViewModel {
            messages: old(view)@.messages.push((role@, content@)),
            ..old(view)@
        }),
{
    let e = ChatEntry { role: text(role), content };
    let ghost before = view.messages@;
    view.messages.push(e);
    assert(entries_view(view.messages@) =~= entries_view(before).push((role@, content@)));
}

fn copy(s: &String) -> (r: String)
    ensures
        r@ == s@,
{
    s.clone()
}

/// The status line shown while searching for `q`.
pub fn search_status_text(q: &String) -> (r: Option<String>)
    ensures
        match r {
            Some(t) => search_status(q@) == Some(t@),
            None => search_status(q@) is None,
        },
{
    let v = chars_of(q.as_str());
    let head = chars_of("Web search: ");
    if byte_len_at_least(&v, 41) {
        match head_to_byte_vec(&v, 40) {
            Some(h) => {
                let t = concat_vec(&head, &h);
                let t = concat_vec(&t, &chars_of("..."));
                Some(string_of(&t))
            },
            None => None,
        }
    } else {
        Some(string_of(&concat_vec(&head, &v)))
    }
}

impl Session {
    /// Decides what to do for `event`, updating the view and the session.
    pub fn step(&mut self, view: &mut ChatView, event: Event) -> (r: Action)
        ensures
            session_step(old(view)@, final(view)@, *old(self), *final(self), event, r),
    {
        match event {
            Event::Begin { stop } => {
                if stop {
                    Action::Stop
                } else {
                    set_listening(view);
                    view.error = None;
                    Action::Listen { cooldown_ms: COOLDOWN_MS }
                }
            },
            Event::Recorded { ok } => {
                if ok {
                    view.phase = Phase::Transcribing;
                    view.status_text = text("Transcribing...");
                    view.transcription_progress = 0;
                    Action::SaveWav
                } else {
                    Action::Restart
                }
            },
            Event::WavSaved(res) => match res {
                Ok(_) => Action::Transcribe,
                Err(e) => {
                    set_failed(view, "WAV error: ", &e);
                    Action::Restart
                },
            },
            Event::Transcribed(res) => self.on_transcribed(view, res),
            Event::SearchDone(result) => self.on_search_done(view, result),
            Event::ChatSent(res) => match res {
                Err(e) => {
                    set_failed(view, "Ollama error: ", &e);
                    Action::Restart
                },
                Ok(_) => {
                    self.reply = ReplyState::new();
                    push_entry(view, "assistant", String::new());
                    view.phase = Phase::Speaking;
                    view.status_text = text("Speaking... (Enter to interrupt)");
                    Action::ReadStream(Vec::new())
                },
            },
            Event::Chunk(lines) => self.on_chunk(view, &lines),
            Event::StreamEnded => {
                let seg = self.reply.finish();
                Action::FinishSpeech(seg)
            },
            Event::SpeechDone => {
                self.close_turn(view);
                Action::EndTurn
            },
            Event::VoiceHeard => {
                if view.phase == Phase::Speaking {
                    self.close_turn(view);
                    Action::Interrupt
                } else {
                    Action::Restart
                }
            },
        }
    }

    fn on_transcribed(&mut self, view: &mut ChatView, res: Result<String, String>) -> (r: Action)
        ensures
            transcribed_step(old(view)@, final(view)@, *old(self), *final(self), res, r),
    {
        match res {
            Err(e) => {
                set_failed(view, "STT error: ", &e);
                Action::Restart
            },
            Ok(t) => {
                view.transcription_progress = 100;
                if !is_meaningful_speech(t.as_str()) {
                    set_listening(view);
                    return Action::Pause { ms: NO_SPEECH_PAUSE_MS };
                }
                push_entry(view, "user", copy(&t));
                match search_intent_outcome(t.as_str()) {
                    IntentOutcome::SliceFault => Action::Crash,
                    IntentOutcome::NoQuery => {
                        self.history.push_user(t);
                        self.query = None;
                        set_thinking(view);
                        Action::SendChat
                    },
                    IntentOutcome::Query(q) => {
                        self.history.push_user(t);
                        self.query = Some(copy(&q));
                        view.search_in_progress = true;
                        view.search_query = copy(&q);
                        match search_status_text(&q) {
                            None => Action::Crash,
                            Some(st) => {
                                view.status_text = st;
                                Action::Search(q)
                            },
                        }
                    },
                }
            },
        }
    }

    fn on_search_done(&mut self, view: &mut ChatView, result: String) -> (r: Action)
        ensures
            searched_step(old(view)@, final(view)@, *old(self), *final(self), result@, r),
    {
        match &self.query {
            Some(q) => {
                let q = copy(q);
                view.search_in_progress = false;
                view.search_result = copy(&result);
                self.history.push_search_context(q.as_str(), result.as_str());
                set_thinking(view);
                Action::SendChat
            },
            None => Action::Restart,
        }
    }

    fn on_chunk(&mut self, view: &mut ChatView, lines: &Vec<Option<StreamLine>>) -> (r: Action)
        ensures
            chunk_step(old(view)@, final(view)@, *old(self), *final(self), lines@, r),
    {
        let contents = line_contents(lines, true);
        let ghost cs = string_views(contents@);
        let mut segs: Vec<String> = Vec::new();
        let mut i: usize = 0;
        assert(cs.skip(0) == cs);
        while i < contents.len()
            invariant
                i <= contents@.len(),
                cs == string_views(contents@),
                self.history() == old(self).history(),
                self.prompt() == old(self).prompt(),
                self.query() == old(self).query(),
                absorb_all(old(self).reply_full(), old(self).reply_pending(), cs) == ({
                    let (f, p, rest) = absorb_all(
                        self.reply_full(),
                        self.reply_pending(),
                        cs.skip(i as int),
                    );
                    (f, p, string_views(segs@) + rest)
                }),
            decreases contents.len() - i,
        {
            let ghost f0 = self.reply_full();
            let ghost p0 = self.reply_pending();
            assert(cs.skip(i as int)[0] == contents@[i as int]@);
            assert(cs.skip(i as int).drop_first() == cs.skip(i + 1));
            let seg = self.reply.absorb(contents[i].as_str());
            match seg {
                Some(x) => {
                    let ghost before = segs@;
                    segs.push(x);
                    assert(string_views(segs@) =~= string_views(before) + seq![x@]);
                    proof {
                        let (f2, p2, rest2) = absorb_all(
                            self.reply_full(),
                            self.reply_pending(),
                            cs.skip(i + 1),
                        );
                        assert(string_views(before) + (seq![x@] + rest2) == string_views(segs@)
                            + rest2);
                    }
                },
                None => {},
            }
            i += 1;
        }
        assert(cs.skip(i as int).len() == 0);
        assert(string_views(segs@) + Seq::<Seq<char>>::empty() == string_views(segs@));
        if contents.len() > 0 && view.messages.len() > 0 {
            let n = view.messages.len();
            let role = copy(&view.messages[n - 1].role);
            let full = self.reply.full_text();
            let ghost before = view.messages@;
            let ghost full_v = full@;
            let ghost role_v = role@;
            view.messages.set(n - 1, ChatEntry { role, content: full });
            assert(entries_view(view.messages@) =~= entries_view(before).update(
                n - 1,
                (role_v, full_v),
            ));
        }
        Action::ReadStream(segs)
    }

    fn close_turn(&mut self, view: &mut ChatView)
        ensures
            turn_closed(old(view)@, final(view)@, *old(self), *final(self)),
    {
        let empty = self.reply.is_empty();
        if empty {
            if view.messages.len() > 0 {
                let ghost before = view.messages@;
                view.messages.pop();
                assert(entries_view(view.messages@) =~= entries_view(before).drop_last());
            }
        }
        set_listening(view);
        if !empty {
            let full = self.reply.full_text();
            self.history.push_assistant(full);
        }
        if self.query.is_some() {
            self.history.drop_search_context();
        }
    }
}

/// How a turn begins: stop on request, else listen again with no error shown.
pub open spec fn begin_step(v0: ChatViewModel, v1: ChatViewModel, stop: bool, r: Action) -> bool {
    if stop {
        r is Stop && v1 == v0
    } else {
        r == (Action::Listen { cooldown_ms: COOLDOWN_MS }) && v1 == (ChatViewModel {
            error: None,
            ..listening(v0)
        })
    }
}

/// After recording: transcribe what was recorded, or begin again.
pub open spec fn recorded_step(v0: ChatViewModel, v1: ChatViewModel, ok: bool, r: Action) -> bool {
    if ok {
        r is SaveWav && v1 == (ChatViewModel {
            phase: Phase::Transcribing,
            status: "Transcribing..."@,
            progress: 0,
            ..v0
        })
    } else {
        r is Restart && v1 == v0
    }
}

/// After saving the recording: transcribe it, or show the error.
pub open spec fn saved_step(v0: ChatViewModel, v1: ChatViewModel, res: Result<(), String>, r: Action) -> bool {
    match res {
        Ok(_) => r is Transcribe && v1 == v0,
        Err(e) => r is Restart && v1 == failed(v0, "WAV error: "@ + e@),
    }
}

/// After transcribing: ignore noise, else record the utterance and search
/// the web for it or ask the model.
pub open spec fn transcribed_step(
    v0: ChatViewModel,
    v1: ChatViewModel,
    s0: Session,
    s1: Session,
    res: Result<String, String>,
    r: Action,
) -> bool {
    match res {
        Err(e) => r is Restart && v1 == failed(v0, "STT error: "@ + e@) && Session::same(s0, s1),
        Ok(t) => {
            let v = ChatViewModel { progress: 100, ..v0 };
            if !meaningful_speech(t@) {
                r == (Action::Pause { ms: NO_SPEECH_PAUSE_MS }) && v1 == listening(v)
                    && Session::same(s0, s1)
            } else {
                let vu = ChatViewModel { messages: v.messages.push(("user"@, t@)), ..v };
                let h = s0.history().push(("user"@, t@));
                &&& s1.prompt() == s0.prompt()
                &&& s1.reply_full() == s0.reply_full()
                &&& s1.reply_pending() == s0.reply_pending()
                &&& match search_intent(t@, lowercase(t@)) {
                    None => r is Crash && v1 == vu && s1.history() == s0.history() && s1.query()
                        == s0.query(),
                    Some(None) => r is SendChat && v1 == thinking(vu) && s1.history() == h
                        && s1.query() is None,
                    Some(Some(q)) => {
                        &&& s1.history() == h
                        &&& s1.query() == Some(q)
                        &&& match search_status(q) {
                            None => r is Crash && v1 == (ChatViewModel {
                                searching: true,
                                query: q,
                                ..vu
                            }),
                            Some(st) => (r matches Action::Search(x) && x@ == q) && v1 == (
                            ChatViewModel { searching: true, query: q, status: st, ..vu }),
                        }
                    },
                }
            }
        },
    }
}

/// After the web search: hand the result to the model as context.
pub open spec fn searched_step(
    v0: ChatViewModel,
    v1: ChatViewModel,
    s0: Session,
    s1: Session,
    result: Seq<char>,
    r: Action,
) -> bool {
    match s0.query() {
        Some(q) => {
            &&& r is SendChat
            &&& v1 == thinking(ChatViewModel { searching: false, result: result, ..v0 })
            &&& s1.history() == s0.history().push(("system"@, search_context(q, result)))
            &&& s1.prompt() == s0.prompt()
            &&& s1.query() == s0.query()
            &&& s1.reply_full() == s0.reply_full()
            &&& s1.reply_pending() == s0.reply_pending()
        },
        None => r is Restart && v1 == v0 && Session::same(s0, s1),
    }
}

/// After sending the request: start an empty reply, or show the error.
pub open spec fn sent_step(
    v0: ChatViewModel,
    v1: ChatViewModel,
    s0: Session,
    s1: Session,
    res: Result<(), String>,
    r: Action,
) -> bool {
    match res {
        Err(e) => r is Restart && v1 == failed(v0, "Ollama error: "@ + e@) && Session::same(s0, s1),
        Ok(_) => {
            &&& r matches Action::ReadStream(segs) && segs@.len() == 0
            &&& v1 == (ChatViewModel {
                messages: v0.messages.push(("assistant"@, Seq::empty())),
                phase: Phase::Speaking,
                status: "Speaking... (Enter to interrupt)"@,
                ..v0
            })
            &&& s1.history() == s0.history()
            &&& s1.prompt() == s0.prompt()
            &&& s1.query() == s0.query()
            &&& s1.reply_full() == Seq::<char>::empty()
            &&& s1.reply_pending() == Seq::<char>::empty()
        },
    }
}

/// After a chunk of the reply: take in its texts, show the reply so far, and
/// speak the sentences completed.
pub open spec fn chunk_step(
    v0: ChatViewModel,
    v1: ChatViewModel,
    s0: Session,
    s1: Session,
    lines: Seq<Option<StreamLine>>,
    r: Action,
) -> bool {
    let contents = reply_contents(lines, true);
    let (f, p, segs) = absorb_all(s0.reply_full(), s0.reply_pending(), contents);
    &&& r matches Action::ReadStream(out) && string_views(out@) == segs
    &&& s1.reply_full() == f
    &&& s1.reply_pending() == p
    &&& s1.history() == s0.history()
    &&& s1.prompt() == s0.prompt()
    &&& s1.query() == s0.query()
    &&& v1 == if contents.len() > 0 && v0.messages.len() > 0 {
        ChatViewModel {
            messages: v0.messages.update(
                v0.messages.len() - 1,
                (v0.messages.last().0, f),
            ),
            ..v0
        }
    } else {
        v0
    }
}

/// At the end of the stream: speak what is left.
pub open spec fn ended_step(v0: ChatViewModel, v1: ChatViewModel, s0: Session, s1: Session, r: Action) -> bool {
    &&& v1 == v0
    &&& s1.history() == s0.history()
    &&& s1.prompt() == s0.prompt()
    &&& s1.query() == s0.query()
    &&& s1.reply_full() == s0.reply_full()
    &&& s1.reply_pending() == Seq::<char>::empty()
    &&& r matches Action::FinishSpeech(seg) && if s0.reply_pending().len() > 0 {
        seg matches Some(x) && x@ == s0.reply_pending()
    } else {
        seg is None
    }
}

/// How a turn closes: keep a non-empty reply in the history (else drop its
/// empty chat line), drop the turn's search result from the history, and show
/// that the assistant listens.
pub open spec fn turn_closed(v0: ChatViewModel, v1: ChatViewModel, s0: Session, s1: Session) -> bool {
    let empty = s0.reply_full().len() == 0;
    let h1 = if empty {
        s0.history()
    } else {
        s0.history().push(("assistant"@, s0.reply_full()))
    };
    let h2 = if s0.query() is Some && drops_context(h1) {
        h1.remove(h1.len() - 2)
    } else {
        h1
    };
    &&& v1 == listening(
        if empty {
            ChatViewModel {
                messages: if v0.messages.len() > 0 {
                    v0.messages.drop_last()
                } else {
                    v0.messages
                },
                ..v0
            }
        } else {
            v0
        },
    )
    &&& s1.history() == h2
    &&& s1.prompt() == s0.prompt()
    &&& s1.query() == s0.query()
    &&& s1.reply_full() == s0.reply_full()
    &&& s1.reply_pending() == s0.reply_pending()
}

/// Once speaking is done: close the turn, save it and listen again.
pub open spec fn spoken_step(v0: ChatViewModel, v1: ChatViewModel, s0: Session, s1: Session, r: Action) -> bool {
    r is EndTurn && turn_closed(v0, v1, s0, s1)
}

/// Whether the action asks for the conversation to be saved: exactly the
/// actions that end a turn, fully spoken or cut short.
pub open spec fn saves_conversation(r: Action) -> bool {
    r is EndTurn || r is Interrupt
}

impl Action {
    /// Whether this action ends a turn, so that the conversation is saved.
    pub fn saves_conversation(&self) -> (b: bool)
        ensures
            b == saves_conversation(*self),
    {
        match self {
            Action::EndTurn | Action::Interrupt => true,
            _ => false,
        }
    }
}

/// The user's voice while the reply is spoken stops it: the turn closes with
/// the reply received so far, and the new utterance is taken; at any other
/// time the voice changes nothing.
pub open spec fn barged_step(v0: ChatViewModel, v1: ChatViewModel, s0: Session, s1: Session, r: Action) -> bool {
    if v0.phase == Phase::Speaking {
        r is Interrupt && turn_closed(v0, v1, s0, s1)
    } else {
        r is Restart && v1 == v0 && Session::same(s0, s1)
    }
}

/// The next state and action for an event.
pub open spec fn session_step(
    v0: ChatViewModel,
    v1: ChatViewModel,
    s0: Session,
    s1: Session,
    e: Event,
    r: Action,
) -> bool {
    match e {
        Event::Begin { stop } => begin_step(v0, v1, stop, r) && Session::same(s0, s1),
        Event::Recorded { ok } => recorded_step(v0, v1, ok, r) && Session::same(s0, s1),
        Event::WavSaved(res) => saved_step(v0, v1, res, r) && Session::same(s0, s1),
        Event::Transcribed(res) => transcribed_step(v0, v1, s0, s1, res, r),
        Event::SearchDone(result) => searched_step(v0, v1, s0, s1, result@, r),
        Event::ChatSent(res) => sent_step(v0, v1, s0, s1, res, r),
        Event::Chunk(lines) => chunk_step(v0, v1, s0, s1, lines@, r),
        Event::StreamEnded => ended_step(v0, v1, s0, s1, r),
        Event::SpeechDone => spoken_step(v0, v1, s0, s1, r),
        Event::VoiceHeard => barged_step(v0, v1, s0, s1, r),
    }
}

} // verus!
