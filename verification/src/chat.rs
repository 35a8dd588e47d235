//! The conversation with the language model: its history, and the streamed
//! reply cut into segments to be spoken.

use vstd::prelude::*;
use crate::text::{ascii_lower, chars_of, concat_vec, starts_with, starts_with_vec, string_of, trim, trim_vec};

verus! {

/// A message of the conversation, as sent to the model.
pub struct Message {
    pub role: String,
    pub content: String,
}

pub open spec fn message_view(m: Message) -> (Seq<char>, Seq<char>) {
    (m.role@, m.content@)
}

pub open spec fn messages_view(ms: Seq<Message>) -> Seq<(Seq<char>, Seq<char>)> {
    ms.map_values(|m: Message| message_view(m))
}

fn str_to_string(s: &str) -> (r: String)
    ensures
        r@ == s@,
{
    s.to_owned()
}

fn message(role: &str, content: String) -> (m: Message)
    ensures
        m.role@ == role@,
        m.content@ == content@,
{
    Message { role: str_to_string(role), content }
}

/// The text of the system message that carries a web search result.
pub open spec fn search_context(query: Seq<char>, result: Seq<char>) -> Seq<char> {
    "Web search result for '"@ + query + "':\n"@ + result
}

/// The conversation history sent to the model: the system message it was
/// started with, then the messages added since.
pub struct Conversation {
    system_prompt: String,
    added: Vec<Message>,
}

impl View for Conversation {
    type V = Seq<(Seq<char>, Seq<char>)>;

    closed spec fn view(&self) -> Seq<(Seq<char>, Seq<char>)> {
        seq![("system"@, self.system_prompt@)] + messages_view(self.added@)
    }
}

fn copy_string(s: &String) -> (r: String)
    ensures
        r@ == s@,
{
    s.clone()
}

impl Conversation {
    /// The system prompt the conversation was started with.
    pub closed spec fn prompt(&self) -> Seq<char> {
        self.system_prompt@
    }

    /// The history starts with the system message holding the prompt.
    pub open spec fn wf(&self) -> bool {
        self@.len() >= 1 && self@[0] == ("system"@, self.prompt())
    }

    /// Every history starts with its system message.
    pub proof fn lemma_starts_with_prompt(&self)
        ensures
            self.wf(),
    {
    }

    /// Starts a conversation with a system message.
    pub fn new(system_prompt: &str) -> (c: Conversation)
        ensures
            c.wf(),
            c.prompt() == system_prompt@,
            c@ == seq![("system"@, system_prompt@)],
    {
        let c = Conversation { system_prompt: str_to_string(system_prompt), added: Vec::new() };
        assert(c@ =~= seq![("system"@, system_prompt@)]);
        c
    }

    /// A copy of the messages, in order.
    pub fn to_messages(&self) -> (r: Vec<Message>)
        ensures
            messages_view(r@) == self@,
    {
        let mut r: Vec<Message> = Vec::new();
        r.push(message("system", copy_string(&self.system_prompt)));
        let mut i: usize = 0;
        while i < self.added.len()
            invariant
                i <= self.added@.len(),
                messages_view(r@) == seq![("system"@, self.system_prompt@)] + messages_view(
                    self.added@.take(i as int),
                ),
            decreases self.added.len() - i,
        {
            let m = &self.added[i];
            let c = Message { role: copy_string(&m.role), content: copy_string(&m.content) };
            let ghost before = r@;
            r.push(c);
            assert(messages_view(r@) =~= messages_view(before).push(message_view(c)));
            assert(messages_view(self.added@.take(i + 1)) =~= messages_view(
                self.added@.take(i as int),
            ).push(message_view(self.added@[i as int])));
            i += 1;
        }
        assert(self.added@.take(self.added@.len() as int) == self.added@);
        r
    }

    fn push(&mut self, role: &str, content: String)
        ensures
            final(self)@ == old(self)@.push((role@, content@)),
            final(self).prompt() == old(self).prompt(),
    {
        let m = message(role, content);
        self.added.push(m);
        assert(messages_view(self.added@) =~= messages_view(old(self).added@).push(
            (role@, content@),
        ));
        assert(self@ =~= old(self)@.push((role@, content@)));
    }

    /// Adds what the user said.
    pub fn push_user(&mut self, content: String)
        ensures
            final(self).prompt() == old(self).prompt(),
            final(self)@ == old(self)@.push(("user"@, content@)),
    {
        self.push("user", content);
    }

    /// Adds the model's reply.
    pub fn push_assistant(&mut self, content: String)
        ensures
            final(self).prompt() == old(self).prompt(),
            final(self)@ == old(self)@.push(("assistant"@, content@)),
    {
        self.push("assistant", content);
    }

    /// Adds a web search result as a system message for the model to use.
    pub fn push_search_context(&mut self, query: &str, result: &str)
        ensures
            final(self).prompt() == old(self).prompt(),
            final(self)@ == old(self)@.push(("system"@, search_context(query@, result@))),
    {
        let a = chars_of("Web search result for '");
        let q = chars_of(query);
        let b = chars_of("':\n");
        let r = chars_of(result);
        let t = concat_vec(&a, &q);
        let t = concat_vec(&t, &b);
        let t = concat_vec(&t, &r);
        self.push("system", string_of(&t));
    }

    /// Removes the search result of the last turn: where the history has at
    /// least four messages and the second to last is a system message starting
    /// with "Web search result", that message goes.
    pub fn drop_search_context(&mut self)
        ensures
            final(self).prompt() == old(self).prompt(),
            final(self)@ == if drops_context(old(self)@) {
                old(self)@.remove(old(self)@.len() - 2)
            } else {
                old(self)@
            },
    {
        let n = self.added.len();
        if n >= 3 {
            let idx = n - 2;
            assert(self@[n - 1] == message_view(self.added@[idx as int]));
            let role = chars_of(self.added[idx].role.as_str());
            let content = chars_of(self.added[idx].content.as_str());
            let system = chars_of("system");
            let marker = chars_of("Web search result");
            if crate::text::same_chars(&role, &system) && starts_with_vec(&content, &marker) {
                let ghost before = self.added@;
                self.added.remove(idx);
                assert(messages_view(self.added@) =~= messages_view(before).remove(idx as int));
                assert(self@ =~= old(self)@.remove(old(self)@.len() - 2));
            }
        }
    }
}

/// Whether the search result of the last turn is dropped from `h`.
pub open spec fn drops_context(h: Seq<(Seq<char>, Seq<char>)>) -> bool {
    h.len() >= 4 && h[h.len() - 2].0 == "system"@ && starts_with(
        h[h.len() - 2].1,
        "Web search result"@,
    )
}

/// The messages for a single exchange: a system prompt and one user input.
pub fn exchange(system_prompt: &str, input: &str) -> (r: Vec<Message>)
    ensures
        messages_view(r@) == seq![("system"@, system_prompt@), ("user"@, input@)],
{
    let mut r = Vec::new();
    r.push(message("system", str_to_string(system_prompt)));
    r.push(message("user", str_to_string(input)));
    assert(messages_view(r@) =~= seq![("system"@, system_prompt@), ("user"@, input@)]);
    r
}

/// The context for the next round of a two-speaker discussion.
pub open spec fn discussion_context_of(a: Seq<char>, b: Seq<char>) -> Seq<char> {
    "A:\n"@ + a + "\n\nB:\n"@ + b
}

/// Combines both speakers' answers into the next round's context.
pub fn discussion_context(a: &str, b: &str) -> (r: String)
    ensures
        r@ == discussion_context_of(a@, b@),
{
    let t = concat_vec(&chars_of("A:\n"), &chars_of(a));
    let t = concat_vec(&t, &chars_of("\n\nB:\n"));
    let t = concat_vec(&t, &chars_of(b));
    string_of(&t)
}

/// What a line typed by the user asks for.
pub enum UserInput {
    Quit,
    Skip,
    Send(String),
}

fn ascii_lower_exec(c: char) -> (r: char)
    ensures
        r == ascii_lower(c),
{
    if 'A' <= c && c <= 'Z' {
        ((c as u8) + 32) as char
    } else {
        c
    }
}

/// Equality up to ASCII case (`str::eq_ignore_ascii_case`).
pub open spec fn eq_ignore_ascii_case(a: Seq<char>, b: Seq<char>) -> bool {
    a.len() == b.len() && forall|i: int| 0 <= i < a.len() ==> ascii_lower(a[i]) == ascii_lower(b[i])
}

fn eq_ignore_ascii_case_vec(a: &Vec<char>, b: &Vec<char>) -> (r: bool)
    ensures
        r == eq_ignore_ascii_case(a@, b@),
{
    if a.len() != b.len() {
        return false;
    }
    let mut i: usize = 0;
    while i < a.len()
        invariant
            a@.len() == b@.len(),
            i <= a@.len(),
            forall|t: int| 0 <= t < i ==> ascii_lower(a@[t]) == ascii_lower(b@[t]),
        decreases a@.len() - i,
    {
        if ascii_lower_exec(a[i]) != ascii_lower_exec(b[i]) {
            return false;
        }
        i += 1;
    }
    true
}

/// What a typed line asks for: "exit" in any case quits, a blank line is
/// skipped, anything else is sent trimmed.
pub open spec fn user_input_agrees(r: UserInput, line: Seq<char>) -> bool {
    let t = trim(line);
    if eq_ignore_ascii_case(t, "exit"@) {
        r is Quit
    } else if t.len() == 0 {
        r is Skip
    } else {
        r matches UserInput::Send(s) && s@ == t
    }
}

/// Reads what a typed line asks for.
pub fn classify_input(line: &str) -> (r: UserInput)
    ensures
        user_input_agrees(r, line@),
{
    let v = chars_of(line);
    let t = trim_vec(&v);
    let exit = chars_of("exit");
    if eq_ignore_ascii_case_vec(&t, &exit) {
        UserInput::Quit
    } else if t.len() == 0 {
        UserInput::Skip
    } else {
        UserInput::Send(string_of(&t))
    }
}

} // verus!
