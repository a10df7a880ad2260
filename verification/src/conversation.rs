//! Per-session chat histories with a bounded length and an optional system prompt.
//!
//! Sessions are keyed by a session id (a user id in direct chats, a room id
//! in group chats).  The messages are a plain model of the chat-completion
//! request messages that the AI client sends.

use vstd::prelude::*;

use crate::text::{owned, str_eq};

verus! {

/// A tool call requested by the assistant.
#[derive(Debug, Clone, PartialEq, Eq)]
pub struct ToolCall {
    /// Id that the tool result refers back to.
    pub id: String,
    /// Name of the tool.
    pub name: String,
    /// Arguments, as JSON text.
    pub arguments: String,
}

/// Content of a user message.
#[derive(Debug, Clone, PartialEq, Eq)]
pub enum UserContent {
    /// Plain text.
    Text(String),
    /// Text followed by an image (a `data:` URL), for vision models.
    TextWithImage { text: String, image_url: String },
}

/// One message of a chat history.
#[derive(Debug, Clone, PartialEq, Eq)]
pub enum ChatMessage {
    /// System prompt.
    System { content: String },
    /// User message.
    User { content: UserContent },
    /// Assistant reply, possibly carrying tool calls.
    Assistant { content: Option<String>, tool_calls: Option<Vec<ToolCall>> },
    /// Result of a tool call.
    Tool { content: String, tool_call_id: String },
}

/// Mathematical view of a tool call: id, name, arguments.
pub type ToolCallView = (Seq<char>, Seq<char>, Seq<char>);

/// Mathematical view of a message.
pub enum MessageView {
    System(Seq<char>),
    UserText(Seq<char>),
    UserImage(Seq<char>, Seq<char>),
    Assistant(Option<Seq<char>>, Option<Seq<ToolCallView>>),
    Tool(Seq<char>, Seq<char>),
}

pub open spec fn tool_call_view(t: ToolCall) -> ToolCallView {
    (t.id@, t.name@, t.arguments@)
}

pub open spec fn tool_calls_view(v: Seq<ToolCall>) -> Seq<ToolCallView> {
    v.map_values(|t: ToolCall| tool_call_view(t))
}

pub open spec fn message_view(m: ChatMessage) -> MessageView {
    match m {
        ChatMessage::System { content } => MessageView::System(content@),
        ChatMessage::User { content } => match content {
            UserContent::Text(t) => MessageView::UserText(t@),
            UserContent::TextWithImage { text, image_url } => MessageView::UserImage(
                text@,
                image_url@,
            ),
        },
        ChatMessage::Assistant { content, tool_calls } => MessageView::Assistant(
            match content {
                Some(c) => Some(c@),
                None => None,
            },
            match tool_calls {
                Some(v) => Some(tool_calls_view(v@)),
                None => None,
            },
        ),
        ChatMessage::Tool { content, tool_call_id } => MessageView::Tool(
            content@,
            tool_call_id@,
        ),
    }
}

pub open spec fn messages_view(v: Seq<ChatMessage>) -> Seq<MessageView> {
    v.map_values(|m: ChatMessage| message_view(m))
}

/// The last `n` messages of `h` when it is longer than `n`, else `h`.
pub open spec fn keep_last(h: Seq<MessageView>, n: int) -> Seq<MessageView> {
    if h.len() > n {
        h.skip(h.len() - n)
    } else {
        h
    }
}

/// The messages sent for a session: the system prompt, if any, then the history.
pub open spec fn with_system(prompt: Option<Seq<char>>, h: Seq<MessageView>) -> Seq<MessageView> {
    match prompt {
        Some(p) => seq![MessageView::System(p)] + h,
        None => h,
    }
}

/// History of one session.
#[derive(Debug)]
struct Session {
    id: String,
    history: Vec<ChatMessage>,
}

/// Manager of independent chat histories, one per session id.
///
/// Each history keeps at most `2 * max_history` messages (one round is a
/// question and an answer) after a user or tool message is added; the
/// oldest messages are dropped first.
#[derive(Debug)]
pub struct ConversationManager {
    sessions: Vec<Session>,
    system_prompt: Option<String>,
    max_history: usize,
}

impl ConversationManager {
    /// Internal consistency: session ids are unique.
    pub closed spec fn wf(&self) -> bool {
        forall|i: int, j: int|
            0 <= i < self.sessions.len() && 0 <= j < self.sessions.len() && #[trigger] self.sessions[i].id@
                == #[trigger] self.sessions[j].id@ ==> i == j
    }

    /// Whether a history exists for the session.
    pub closed spec fn has_session(&self, sid: Seq<char>) -> bool {
        exists|i: int| 0 <= i < self.sessions.len() && #[trigger] self.sessions[i].id@ == sid
    }

    /// The history of the session (empty when there is none).
    pub closed spec fn history(&self, sid: Seq<char>) -> Seq<MessageView> {
        if self.has_session(sid) {
            let i = choose|i: int| 0 <= i < self.sessions.len() && #[trigger] self.sessions[i].id@ == sid;
            messages_view(self.sessions[i].history@)
        } else {
            Seq::empty()
        }
    }

    /// The configured system prompt.
    pub closed spec fn system_prompt_view(&self) -> Option<Seq<char>> {
        match self.system_prompt {
            Some(p) => Some(p@),
            None => None,
        }
    }

    /// The configured number of rounds kept.
    pub closed spec fn max_history_view(&self) -> nat {
        self.max_history as nat
    }

    /// Messages kept per session after a trimming step.
    pub open spec fn limit(&self) -> int {
        2 * (self.max_history_view() as int)
    }

    /// Everything but one session is unchanged.
    pub open spec fn same_except(&self, other: &Self, sid: Seq<char>) -> bool {
        &&& self.system_prompt_view() == other.system_prompt_view()
        &&& self.max_history_view() == other.max_history_view()
        &&& forall|k: Seq<char>| k != sid ==> #[trigger] self.history(k) == other.history(k)
        &&& forall|k: Seq<char>| k != sid ==> #[trigger] self.has_session(k) == other.has_session(k)
    }

    /// Creates a manager with an optional system prompt and the number of
    /// rounds to keep per session.
    pub fn new(system_prompt: Option<String>, max_history: usize) -> (r: Self)
        ensures
            r.wf(),
            r.system_prompt_view() == (match system_prompt {
                Some(p) => Some(p@),
                None => None,
            }),
            r.max_history_view() == max_history,
            forall|k: Seq<char>| !#[trigger] r.has_session(k) && r.history(k) == Seq::<MessageView>::empty(),
    {
        ConversationManager { sessions: Vec::new(), system_prompt, max_history }
    }

    /// Index of the session with the given id.
    fn find(&self, sid: &str) -> (r: Option<usize>)
        requires
            self.wf(),
        ensures
            r matches Some(i) ==> i < self.sessions.len() && self.sessions@[i as int].id@ == sid@,
            r is None ==> !self.has_session(sid@),
    {
        let mut i: usize = 0;
        while i < self.sessions.len()
            invariant
                i <= self.sessions.len(),
                forall|k: int| 0 <= k < i ==> #[trigger] self.sessions@[k].id@ != sid@,
            decreases self.sessions.len() - i,
        {
            if str_eq(self.sessions[i].id.as_str(), sid) {
                return Some(i);
            }
            i += 1;
        }
        None
    }

    proof fn lemma_history_at(&self, i: int)
        requires
            self.wf(),
            0 <= i < self.sessions.len(),
        ensures
            self.has_session(self.sessions[i].id@),
            self.history(self.sessions[i].id@) == messages_view(self.sessions[i].history@),
    {
        let sid = self.sessions[i].id@;
        assert(self.has_session(sid));
        let j = choose|j: int| 0 <= j < self.sessions.len() && #[trigger] self.sessions[j].id@ == sid;
        assert(self.sessions[j].id@ == self.sessions[i].id@);
    }

    /// Takes the history of a session out (creating an empty session first
    /// if needed), returning its index; every other session keeps its index.
    fn take_history(&mut self, sid: &str) -> (r: (usize, Vec<ChatMessage>))
        requires
            old(self).wf(),
        ensures
            final(self).wf(),
            r.0 <= old(self).sessions.len(),
            final(self).sessions.len() == if r.0 == old(self).sessions.len() {
                old(self).sessions.len() + 1
            } else {
                old(self).sessions.len() as int
            },
            r.0 < old(self).sessions.len() ==> old(self).sessions@[r.0 as int].id@ == sid@,
            r.0 == old(self).sessions.len() ==> !old(self).has_session(sid@),
            final(self).sessions@[r.0 as int].id@ == sid@,
            messages_view(r.1@) == old(self).history(sid@),
            forall|k: int|
                0 <= k < old(self).sessions.len() && k != r.0 ==> #[trigger] final(self).sessions@[k]
                    == old(self).sessions@[k],
            final(self).system_prompt == old(self).system_prompt,
            final(self).max_history == old(self).max_history,
    {
        match self.find(sid) {
            Some(i) => {
                let ghost old_self = *self;
                proof {
                    old_self.lemma_history_at(i as int);
                }
                let s = self.sessions.remove(i);
                let h = s.history;
                self.sessions.insert(i, Session { id: s.id, history: Vec::new() });
                proof {
                    assert forall|a: int, b: int|
                        0 <= a < self.sessions.len() && 0 <= b < self.sessions.len()
                            && #[trigger] self.sessions[a].id@ == #[trigger] self.sessions[b].id@ implies a
                        == b by {
                        assert(self.sessions[a].id@ == old_self.sessions[a].id@);
                        assert(self.sessions[b].id@ == old_self.sessions[b].id@);
                    }
                    assert forall|k: int|
                        0 <= k < old_self.sessions.len() && k != i implies #[trigger] self.sessions@[k]
                        == old_self.sessions@[k] by {}
                }
                (i, h)
            },
            None => {
                let ghost old_self = *self;
                let n = self.sessions.len();
                self.sessions.push(Session { id: owned(sid), history: Vec::new() });
                proof {
                    assert forall|a: int, b: int|
                        0 <= a < self.sessions.len() && 0 <= b < self.sessions.len()
                            && #[trigger] self.sessions[a].id@ == #[trigger] self.sessions[b].id@ implies a
                        == b by {
                        if a < n && b < n {
                            assert(self.sessions[a] == old_self.sessions[a]);
                            assert(self.sessions[b] == old_self.sessions[b]);
                        } else if a < n {
                            assert(self.sessions[a] == old_self.sessions[a]);
                            assert(old_self.sessions[a].id@ == sid@);
                        } else if b < n {
                            assert(self.sessions[b] == old_self.sessions[b]);
                            assert(old_self.sessions[b].id@ == sid@);
                        }
                    }
                    assert forall|k: int|
                        0 <= k < old_self.sessions.len() && k != n implies #[trigger] self.sessions@[k]
                        == old_self.sessions@[k] by {}
                }
                let empty: Vec<ChatMessage> = Vec::new();
                assert(messages_view(empty@) =~= Seq::<MessageView>::empty());
                (n, empty)
            },
        }
    }

    /// Puts a history back at the index returned by `take_history`.
    fn put_history(&mut self, idx: usize, h: Vec<ChatMessage>)
        requires
            old(self).wf(),
            idx < old(self).sessions.len(),
        ensures
            final(self).wf(),
            final(self).sessions.len() == old(self).sessions.len(),
            final(self).sessions@[idx as int].id@ == old(self).sessions@[idx as int].id@,
            final(self).sessions@[idx as int].history@ == h@,
            forall|k: int|
                0 <= k < old(self).sessions.len() && k != idx ==> #[trigger] final(self).sessions@[k]
                    == old(self).sessions@[k],
            final(self).system_prompt == old(self).system_prompt,
            final(self).max_history == old(self).max_history,
    {
        let ghost old_self = *self;
        let s = self.sessions.remove(idx);
        self.sessions.insert(idx, Session { id: s.id, history: h });
        proof {
            assert forall|a: int, b: int|
                0 <= a < self.sessions.len() && 0 <= b < self.sessions.len() && #[trigger] self.sessions[a].id@
                    == #[trigger] self.sessions[b].id@ implies a == b by {
                assert(self.sessions[a].id@ == old_self.sessions[a].id@);
                assert(self.sessions[b].id@ == old_self.sessions[b].id@);
            }
            assert forall|k: int|
                0 <= k < old_self.sessions.len() && k != idx implies #[trigger] self.sessions@[k]
                == old_self.sessions@[k] by {}
        }
    }

    /// A session replaced at `idx` (or added there), all others unchanged:
    /// only that session's history changes.
    proof fn lemma_take_put(old_self: &Self, new_self: &Self, idx: int, sid: Seq<char>)
        requires
            old_self.wf(),
            new_self.wf(),
            0 <= idx <= old_self.sessions.len(),
            new_self.sessions.len() == if idx == old_self.sessions.len() {
                old_self.sessions.len() + 1
            } else {
                old_self.sessions.len() as int
            },
            idx < old_self.sessions.len() ==> old_self.sessions@[idx].id@ == sid,
            idx == old_self.sessions.len() ==> !old_self.has_session(sid),
            new_self.sessions@[idx].id@ == sid,
            forall|k: int|
                0 <= k < old_self.sessions.len() && k != idx ==> #[trigger] new_self.sessions@[k]
                    == old_self.sessions@[k],
            new_self.system_prompt == old_self.system_prompt,
            new_self.max_history == old_self.max_history,
        ensures
            new_self.same_except(old_self, sid),
            new_self.has_session(sid),
            new_self.history(sid) == messages_view(new_self.sessions@[idx].history@),
    {
        new_self.lemma_history_at(idx);
        assert forall|k: Seq<char>| k != sid implies #[trigger] new_self.has_session(k)
            == old_self.has_session(k) by {
            if new_self.has_session(k) {
                let a = choose|a: int|
                    0 <= a < new_self.sessions.len() && #[trigger] new_self.sessions[a].id@ == k;
                assert(a != idx);
                assert(new_self.sessions@[a] == old_self.sessions@[a]);
            }
            if old_self.has_session(k) {
                let m = choose|m: int|
                    0 <= m < old_self.sessions.len() && #[trigger] old_self.sessions[m].id@ == k;
                assert(m != idx);
                assert(new_self.sessions@[m] == old_self.sessions@[m]);
            }
        }
        assert forall|k: Seq<char>| k != sid implies #[trigger] new_self.history(k)
            == old_self.history(k) by {
            if old_self.has_session(k) {
                let m = choose|m: int|
                    0 <= m < old_self.sessions.len() && #[trigger] old_self.sessions[m].id@ == k;
                old_self.lemma_history_at(m);
                assert(m != idx);
                assert(new_self.sessions@[m] == old_self.sessions@[m]);
                new_self.lemma_history_at(m);
            } else {
                assert(!new_self.has_session(k));
            }
        }
    }

    /// Drops the oldest messages so that at most `2 * max_history` remain.
    fn trim_history(h: &mut Vec<ChatMessage>, max_history: usize)
        requires
            max_history * 2 <= usize::MAX,
        ensures
            messages_view(final(h)@) == keep_last(messages_view(old(h)@), 2 * max_history),
    {
        let limit = max_history * 2;
        if h.len() > limit {
            let at = h.len() - limit;
            let tail = h.split_off(at);
            let ghost before = messages_view(old(h)@);
            *h = tail;
            assert(messages_view(h@) =~= before.skip(at as int));
        }
    }

    /// Appends a message to a session (creating it), then trims the history.
    fn append_trimmed(&mut self, sid: &str, msg: ChatMessage)
        requires
            old(self).wf(),
            old(self).max_history_view() * 2 <= usize::MAX,
        ensures
            final(self).wf(),
            final(self).same_except(old(self), sid@),
            final(self).has_session(sid@),
            final(self).history(sid@) == keep_last(
                old(self).history(sid@).push(message_view(msg)),
                old(self).limit(),
            ),
    {
        let ghost old_self = *self;
        let (idx, mut h) = self.take_history(sid);
        let ghost hv = messages_view(h@);
        h.push(msg);
        assert(messages_view(h@) =~= hv.push(message_view(msg)));
        Self::trim_history(&mut h, self.max_history);
        self.put_history(idx, h);
        proof {
            Self::lemma_take_put(&old_self, self, idx as int, sid@);
        }
    }

    /// Appends a user message to the session (creating it if needed) and
    /// keeps only the last `2 * max_history` messages.
    pub fn add_user_message(&mut self, session_id: &str, content: &str)
        requires
            old(self).wf(),
            old(self).max_history_view() * 2 <= usize::MAX,
        ensures
            final(self).wf(),
            final(self).same_except(old(self), session_id@),
            final(self).has_session(session_id@),
            final(self).history(session_id@) == keep_last(
                old(self).history(session_id@).push(MessageView::UserText(content@)),
                old(self).limit(),
            ),
    {
        let msg = ChatMessage::User { content: UserContent::Text(owned(content)) };
        self.append_trimmed(session_id, msg);
    }

    /// Appends a user message made of text and an image data URL, like
    /// [`ConversationManager::add_user_message`].
    pub fn add_user_message_with_image(&mut self, session_id: &str, text: &str, image_data_url: &str)
        requires
            old(self).wf(),
            old(self).max_history_view() * 2 <= usize::MAX,
        ensures
            final(self).wf(),
            final(self).same_except(old(self), session_id@),
            final(self).has_session(session_id@),
            final(self).history(session_id@) == keep_last(
                old(self).history(session_id@).push(MessageView::UserImage(text@, image_data_url@)),
                old(self).limit(),
            ),
    {
        let msg = ChatMessage::User {
            content: UserContent::TextWithImage {
                text: owned(text),
                image_url: owned(image_data_url),
            },
        };
        self.append_trimmed(session_id, msg);
    }

    /// Appends an assistant reply, only if the session already exists; the
    /// history is not trimmed here.
    pub fn add_assistant_message(&mut self, session_id: &str, content: &str)
        requires
            old(self).wf(),
        ensures
            final(self).wf(),
            final(self).same_except(old(self), session_id@),
            final(self).has_session(session_id@) == old(self).has_session(session_id@),
            final(self).history(session_id@) == if old(self).has_session(session_id@) {
                old(self).history(session_id@).push(MessageView::Assistant(Some(content@), None))
            } else {
                Seq::<MessageView>::empty()
            },
    {
        match self.find(session_id) {
            None => {},
            Some(_) => {
                let ghost old_self = *self;
                let (idx, mut h) = self.take_history(session_id);
                        let ghost hv = messages_view(h@);
                h.push(ChatMessage::Assistant { content: Some(owned(content)), tool_calls: None });
                assert(messages_view(h@) =~= hv.push(
                    MessageView::Assistant(Some(content@), None),
                ));
                self.put_history(idx, h);
                proof {
                    Self::lemma_take_put(&old_self, self, idx as int, session_id@);
                }
            },
        }
    }

    /// The messages to send for a session: the system prompt (if any), then the history.
    pub fn get_messages(&self, session_id: &str) -> (r: Vec<ChatMessage>)
        requires
            self.wf(),
        ensures
            messages_view(r@) == with_system(self.system_prompt_view(), self.history(session_id@)),
    {
        let mut messages: Vec<ChatMessage> = Vec::new();
        match &self.system_prompt {
            Some(p) => {
                messages.push(ChatMessage::System { content: p.clone() });
            },
            None => {},
        }
        let ghost prefix = messages_view(messages@);
        self.push_history(session_id, &mut messages);
        proof {
            assert(messages_view(messages@) =~= with_system(
                self.system_prompt_view(),
                self.history(session_id@),
            ));
        }
        messages
    }

    /// The messages to send with a custom system prompt in place of the configured one.
    pub fn get_messages_with_system(&self, session_id: &str, system_prompt: &str) -> (r: Vec<ChatMessage>)
        requires
            self.wf(),
        ensures
            messages_view(r@) == seq![MessageView::System(system_prompt@)] + self.history(
                session_id@,
            ),
    {
        let mut messages: Vec<ChatMessage> = Vec::new();
        messages.push(ChatMessage::System { content: owned(system_prompt) });
        self.push_history(session_id, &mut messages);
        proof {
            assert(messages_view(messages@) =~= seq![MessageView::System(system_prompt@)]
                + self.history(session_id@));
        }
        messages
    }

    /// Appends copies of the session's history to `out`.
    fn push_history(&self, session_id: &str, out: &mut Vec<ChatMessage>)
        requires
            self.wf(),
        ensures
            messages_view(final(out)@) == messages_view(old(out)@) + self.history(session_id@),
    {
        match self.find(session_id) {
            None => {
                assert(messages_view(out@) + Seq::<MessageView>::empty() =~= messages_view(out@));
            },
            Some(i) => {
                proof {
                    self.lemma_history_at(i as int);
                }
                let h = &self.sessions[i].history;
                let ghost start = messages_view(out@);
                let mut k: usize = 0;
                while k < h.len()
                    invariant
                        k <= h.len(),
                        messages_view(out@) == start + messages_view(h@).take(k as int),
                    decreases h.len() - k,
                {
                    let m = copy_message(&h[k]);
                    let ghost before = messages_view(out@);
                    out.push(m);
                    assert(messages_view(out@) =~= before.push(message_view(m)));
                    assert(messages_view(h@)[k as int] == message_view(h@[k as int]));
                    assert(messages_view(h@).take(k + 1) =~= messages_view(h@).take(k as int).push(
                        message_view(h@[k as int]),
                    ));
                    assert(messages_view(out@) =~= start + messages_view(h@).take(k + 1));
                    k += 1;
                }
                assert(messages_view(h@).take(h.len() as int) =~= messages_view(h@));
            },
        }
    }

    /// Deletes the history of a session.
    pub fn reset(&mut self, session_id: &str)
        requires
            old(self).wf(),
        ensures
            final(self).wf(),
            final(self).same_except(old(self), session_id@),
            !final(self).has_session(session_id@),
            final(self).history(session_id@) == Seq::<MessageView>::empty(),
    {
        match self.find(session_id) {
            None => {},
            Some(i) => {
                let ghost old_self = *self;
                self.sessions.remove(i);
                proof {
                    assert forall|a: int, b: int|
                        0 <= a < self.sessions.len() && 0 <= b < self.sessions.len()
                            && #[trigger] self.sessions[a].id@ == #[trigger] self.sessions[b].id@ implies a
                        == b by {
                        let oa = if a < i { a } else { a + 1 };
                        let ob = if b < i { b } else { b + 1 };
                        assert(self.sessions[a] == old_self.sessions[oa]);
                        assert(self.sessions[b] == old_self.sessions[ob]);
                    }
                    assert(!self.has_session(session_id@)) by {
                        if self.has_session(session_id@) {
                            let a = choose|a: int| 0 <= a < self.sessions.len() && #[trigger] self.sessions[a].id@ == session_id@;
                            let oa = if a < i { a } else { a + 1 };
                            assert(self.sessions[a] == old_self.sessions[oa]);
                            assert(old_self.sessions[oa].id@ == old_self.sessions[i as int].id@);
                        }
                    }
                    assert forall|k: Seq<char>| k != session_id@ implies #[trigger] self.has_session(k) == old_self.has_session(k) && self.history(k) == old_self.history(k) by {
                        if old_self.has_session(k) {
                            let m = choose|m: int| 0 <= m < old_self.sessions.len() && #[trigger] old_self.sessions[m].id@ == k;
                            assert(m != i);
                            let a = if m < i { m } else { m - 1 };
                            assert(self.sessions[a] == old_self.sessions[m]);
                            old_self.lemma_history_at(m);
                            self.lemma_history_at(a);
                        }
                        if self.has_session(k) {
                            let a = choose|a: int| 0 <= a < self.sessions.len() && #[trigger] self.sessions[a].id@ == k;
                            let oa = if a < i { a } else { a + 1 };
                            assert(self.sessions[a] == old_self.sessions[oa]);
                        }
                    }
                }
            },
        }
    }

    /// Records a tool call of the assistant: it is added to the last message
    /// when that is an assistant message, otherwise a new assistant message
    /// holding only this call is appended and the history is trimmed.  The
    /// session is created if needed.
    pub fn add_tool_call_message(&mut self, session_id: &str, tool_call_id: String, tool_name: String, arguments: String)
        requires
            old(self).wf(),
            old(self).max_history_view() * 2 <= usize::MAX,
        ensures
            final(self).wf(),
            final(self).same_except(old(self), session_id@),
            final(self).has_session(session_id@),
            final(self).history(session_id@) == with_tool_call(
                old(self).history(session_id@),
                (tool_call_id@, tool_name@, arguments@),
                old(self).limit(),
            ),
    {
        let ghost old_self = *self;
        let ghost tc_view = (tool_call_id@, tool_name@, arguments@);
        let (idx, mut h) = self.take_history(session_id);
        let ghost hv = messages_view(h@);
        let call = ToolCall { id: tool_call_id, name: tool_name, arguments };
        let n = h.len();
        let last_is_assistant = n > 0 && match &h[n - 1] {
            ChatMessage::Assistant { .. } => true,
            _ => false,
        };
        if last_is_assistant {
            let last = h.pop().unwrap();
            match last {
                ChatMessage::Assistant { content, tool_calls } => {
                    let new_calls = match tool_calls {
                        Some(mut v) => {
                            let ghost vv = tool_calls_view(v@);
                            v.push(call);
                            assert(tool_calls_view(v@) =~= vv.push(tc_view));
                            v
                        },
                        None => {
                            let mut v = Vec::new();
                            v.push(call);
                            assert(tool_calls_view(v@) =~= seq![tc_view]);
                            v
                        },
                    };
                    h.push(ChatMessage::Assistant { content, tool_calls: Some(new_calls) });
                    assert(messages_view(h@) =~= hv.drop_last().push(
                        message_view(h@[h@.len() - 1]),
                    ));
                },
                other => {
                    h.push(other);
                    assert(messages_view(h@) =~= hv);
                },
            }
        } else {
            let mut v = Vec::new();
            v.push(call);
            assert(tool_calls_view(v@) =~= seq![tc_view]);
            h.push(ChatMessage::Assistant { content: None, tool_calls: Some(v) });
            assert(messages_view(h@) =~= hv.push(
                MessageView::Assistant(None, Some(seq![tc_view])),
            ));
            Self::trim_history(&mut h, self.max_history);
        }
        self.put_history(idx, h);
        proof {
            Self::lemma_take_put(&old_self, self, idx as int, session_id@);
        }
    }

    /// Appends the result of a tool call to the session (creating it) and
    /// trims the history.
    pub fn add_tool_result_message(&mut self, session_id: &str, tool_call_id: String, result: String)
        requires
            old(self).wf(),
            old(self).max_history_view() * 2 <= usize::MAX,
        ensures
            final(self).wf(),
            final(self).same_except(old(self), session_id@),
            final(self).has_session(session_id@),
            final(self).history(session_id@) == keep_last(
                old(self).history(session_id@).push(MessageView::Tool(result@, tool_call_id@)),
                old(self).limit(),
            ),
    {
        let msg = ChatMessage::Tool { content: result, tool_call_id };
        self.append_trimmed(session_id, msg);
    }
}

/// History after recording a tool call (see
/// [`ConversationManager::add_tool_call_message`]).
pub open spec fn with_tool_call(h: Seq<MessageView>, call: ToolCallView, limit: int) -> Seq<MessageView> {
    if h.len() > 0 && h.last() is Assistant {
        match h.last() {
            MessageView::Assistant(content, calls) => h.drop_last().push(
                MessageView::Assistant(
                    content,
                    Some(
                        match calls {
                            Some(v) => v.push(call),
                            None => seq![call],
                        },
                    ),
                ),
            ),
            _ => h,
        }
    } else {
        keep_last(h.push(MessageView::Assistant(None, Some(seq![call]))), limit)
    }
}

/// A copy of a tool call.
fn copy_tool_call(t: &ToolCall) -> (r: ToolCall)
    ensures
        tool_call_view(r) == tool_call_view(*t),
{
    ToolCall { id: t.id.clone(), name: t.name.clone(), arguments: t.arguments.clone() }
}

/// A copy of a message.
pub fn copy_message(m: &ChatMessage) -> (r: ChatMessage)
    ensures
        message_view(r) == message_view(*m),
{
    match m {
        ChatMessage::System { content } => ChatMessage::System { content: content.clone() },
        ChatMessage::User { content } => match content {
            UserContent::Text(t) => ChatMessage::User { content: UserContent::Text(t.clone()) },
            UserContent::TextWithImage { text, image_url } => ChatMessage::User {
                content: UserContent::TextWithImage {
                    text: text.clone(),
                    image_url: image_url.clone(),
                },
            },
        },
        ChatMessage::Assistant { content, tool_calls } => {
            let c = match content {
                Some(c) => Some(c.clone()),
                None => None,
            };
            let t = match tool_calls {
                Some(v) => {
                    let mut out: Vec<ToolCall> = Vec::new();
                    let mut i: usize = 0;
                    while i < v.len()
                        invariant
                            i <= v.len(),
                            tool_calls_view(out@) == tool_calls_view(v@).take(i as int),
                        decreases v.len() - i,
                    {
                        let c = copy_tool_call(&v[i]);
                        let ghost before = tool_calls_view(out@);
                        out.push(c);
                        assert(tool_calls_view(out@) =~= before.push(tool_call_view(c)));
                        assert(tool_calls_view(v@)[i as int] == tool_call_view(v@[i as int]));
                        assert(tool_calls_view(out@) =~= tool_calls_view(v@).take(i + 1));
                        i += 1;
                    }
                    assert(tool_calls_view(v@).take(v.len() as int) =~= tool_calls_view(v@));
                    Some(out)
                },
                None => None,
            };
            ChatMessage::Assistant { content: c, tool_calls: t }
        },
        ChatMessage::Tool { content, tool_call_id } => ChatMessage::Tool {
            content: content.clone(),
            tool_call_id: tool_call_id.clone(),
        },
    }
}

/// A history never holds more than `2 * max_history` messages right after a
/// user message is added, and that message is the last one when at least
/// one round is kept.
pub proof fn law_history_bounded(h: Seq<MessageView>, content: Seq<char>, max_history: int)
    requires
        max_history >= 0,
    ensures
        max_history > 0 ==> keep_last(h.push(MessageView::UserText(content)), 2 * max_history).last()
            == MessageView::UserText(content),
        keep_last(h.push(MessageView::UserText(content)), 2 * max_history).len() <= 2 * max_history,
{
}

} // verus!
