//! Decisions taken on each room message: whether the bot answers, under
//! which session, with which prompt and in which mode.

use vstd::prelude::*;

use crate::text::{
    chars_of, contains_seq, owned, push_str, replace_all, replace_all_chars, starts_with, str_eq,
    string_from_range, trim, trim_bounds, trim_string, matches_at,
};

verus! {

/// Kind of an incoming room message.
#[derive(Debug, Clone, Copy, PartialEq, Eq, Structural)]
pub enum MessageKind {
    /// A text message.
    Text,
    /// An image message.
    Image,
    /// Anything else (video, audio, file, ...).
    Other,
}

/// How a chat reply is produced.
#[derive(Debug, Clone, Copy, PartialEq, Eq, Structural)]
pub enum ChatMode {
    /// Chat with tool calls; on failure fall back to streaming (`true`) or
    /// to a single reply (`false`).
    Tools { fallback_streaming: bool },
    /// Streamed reply.
    Streaming,
    /// Single reply.
    Normal,
}

/// What to do with a room message.
#[derive(Debug, Clone, PartialEq, Eq)]
pub enum MessagePlan {
    /// Nothing.
    Ignore,
    /// Hand the message to the command gateway.
    Command,
    /// Clear the session's history and tell the room so ([`RESET_NOTICE`]).
    Reset { session_id: String },
    /// Ask the AI service and post the reply.
    Chat { session_id: String, prompt: String, mode: ChatMode },
    /// Analyse the image with the vision model.
    Image { session_id: String },
}

/// Mathematical view of a [`MessagePlan`].
pub enum PlanView {
    Ignore,
    Command,
    Reset(Seq<char>),
    Chat(Seq<char>, Seq<char>, ChatMode),
    Image(Seq<char>),
}

pub open spec fn plan_view(p: MessagePlan) -> PlanView {
    match p {
        MessagePlan::Ignore => PlanView::Ignore,
        MessagePlan::Command => PlanView::Command,
        MessagePlan::Reset { session_id } => PlanView::Reset(session_id@),
        MessagePlan::Chat { session_id, prompt, mode } => PlanView::Chat(session_id@, prompt@, mode),
        MessagePlan::Image { session_id } => PlanView::Image(session_id@),
    }
}

/// The notice sent once a session's history is cleared.
pub const RESET_NOTICE: &'static str = "会话历史已清除";

/// The session of a message: the sender in a direct chat, the room otherwise.
pub open spec fn session_of(sender: Seq<char>, room_id: Seq<char>, is_direct: bool) -> Seq<char> {
    if is_direct {
        sender
    } else {
        room_id
    }
}

/// Message text with the command prefix (if it starts the text) and every
/// textual mention of the bot removed, then trimmed.
pub open spec fn extract_spec(prefix: Seq<char>, bot: Seq<char>, text: Seq<char>) -> Seq<char> {
    trim(
        replace_all(
            if starts_with(text, prefix) {
                text.skip(prefix.len() as int)
            } else {
                text
            },
            bot,
            Seq::empty(),
        ),
    )
}

/// The reply mode chosen from the configuration.
pub open spec fn mode_spec(tools: bool, streaming: bool) -> ChatMode {
    if tools {
        ChatMode::Tools { fallback_streaming: streaming }
    } else if streaming {
        ChatMode::Streaming
    } else {
        ChatMode::Normal
    }
}

/// Settings that decide how the bot reacts to room messages.
#[derive(Debug, Clone)]
pub struct MessageRules {
    command_prefix: String,
    bot_user_id: String,
    streaming_enabled: bool,
    vision_enabled: bool,
    tools_enabled: bool,
}

impl MessageRules {
    pub closed spec fn prefix_view(&self) -> Seq<char> {
        self.command_prefix@
    }

    pub closed spec fn bot_view(&self) -> Seq<char> {
        self.bot_user_id@
    }

    pub closed spec fn streaming(&self) -> bool {
        self.streaming_enabled
    }

    pub closed spec fn vision(&self) -> bool {
        self.vision_enabled
    }

    pub closed spec fn tools(&self) -> bool {
        self.tools_enabled
    }

    /// The plan for a message (see [`MessageRules::plan`]).
    pub open spec fn plan_spec(
        &self,
        sender: Seq<char>,
        room_id: Seq<char>,
        is_direct: bool,
        mentions_bot: bool,
        is_command: bool,
        body: Seq<char>,
        kind: MessageKind,
    ) -> PlanView {
        if sender == self.bot_view() {
            PlanView::Ignore
        } else if is_command {
            if trim(body) == self.prefix_view() + "reset"@ {
                PlanView::Reset(session_of(sender, room_id, is_direct))
            } else {
                PlanView::Command
            }
        } else if !(is_direct || contains_seq(body, self.bot_view()) || mentions_bot) {
            PlanView::Ignore
        } else {
            match kind {
                MessageKind::Text => PlanView::Chat(
                    session_of(sender, room_id, is_direct),
                    extract_spec(self.prefix_view(), self.bot_view(), body),
                    mode_spec(self.tools(), self.streaming()),
                ),
                MessageKind::Image => if self.vision() {
                    PlanView::Image(session_of(sender, room_id, is_direct))
                } else {
                    PlanView::Ignore
                },
                MessageKind::Other => PlanView::Ignore,
            }
        }
    }

    /// Rules for a bot with the given command prefix and (non-empty) user id.
    pub fn new(
        command_prefix: String,
        bot_user_id: String,
        streaming_enabled: bool,
        vision_enabled: bool,
        tools_enabled: bool,
    ) -> (r: Self)
        requires
            bot_user_id@.len() > 0,
        ensures
            r.prefix_view() == command_prefix@,
            r.bot_view() == bot_user_id@,
            r.streaming() == streaming_enabled,
            r.vision() == vision_enabled,
            r.tools() == tools_enabled,
            r.wf(),
    {
        MessageRules { command_prefix, bot_user_id, streaming_enabled, vision_enabled, tools_enabled }
    }

    /// The bot's user id is never empty.
    pub closed spec fn wf(&self) -> bool {
        self.bot_user_id@.len() > 0
    }

    /// Removes the command prefix and textual mentions of the bot, then trims.
    pub fn extract_message(&self, text: &str) -> (r: String)
        requires
            self.wf(),
        ensures
            r@ == extract_spec(self.prefix_view(), self.bot_view(), text@),
    {
        let v = chars_of(text);
        let p = chars_of(self.command_prefix.as_str());
        let start: usize = if matches_at(&v, 0, &p) {
            p.len()
        } else {
            0
        };
        proof {
            assert(v@.skip(0) =~= v@);
        }
        let rest = string_from_range(&v, start, v.len());
        let rest_chars = chars_of(rest.as_str());
        let bot = chars_of(self.bot_user_id.as_str());
        let empty: Vec<char> = Vec::new();
        let replaced = replace_all_chars(&rest_chars, &bot, &empty);
        let (a, b) = trim_bounds(&replaced);
        proof {
            assert(empty@ =~= Seq::<char>::empty());
            if starts_with(text@, self.prefix_view()) {
                assert(v@.subrange(start as int, v@.len() as int) =~= text@.skip(
                    self.prefix_view().len() as int,
                ));
            } else {
                assert(v@.subrange(0, v@.len() as int) =~= text@);
            }
        }
        string_from_range(&replaced, a, b)
    }

    /// Whether `body` mentions the bot's user id textually.
    fn mentions_in_text(&self, body: &str) -> (r: bool)
        requires
            self.wf(),
        ensures
            r == contains_seq(body@, self.bot_view()),
    {
        let v = chars_of(body);
        let bot = chars_of(self.bot_user_id.as_str());
        if bot.len() > v.len() {
            assert(!contains_seq(body@, self.bot_view()));
            return false;
        }
        let mut i: usize = 0;
        let last = v.len() - bot.len();
        while i <= last
            invariant
                v@ == body@,
                bot@ == self.bot_view(),
                bot.len() <= v.len(),
                last == v.len() - bot.len(),
                bot.len() > 0,
                i <= last + 1,
                forall|k: int| 0 <= k < i ==> #[trigger] v@.subrange(k, k + bot@.len()) != bot@,
            decreases last + 1 - i,
        {
            if matches_at(&v, i, &bot) {
                assert(v@.subrange(i as int, i + bot@.len()) =~= v@.skip(i as int).take(
                    bot@.len() as int,
                ));
                return true;
            }
            assert(v@.subrange(i as int, i + bot@.len()) =~= v@.skip(i as int).take(
                bot@.len() as int,
            ));
            i += 1;
        }
        false
    }

    /// Whether the bot answers a message when commands are not routed
    /// separately: always in direct chats; in group chats when the text
    /// starts with the command prefix or mentions the bot, textually or
    /// through the mentions field.
    pub fn should_respond(&self, is_direct: bool, body: &str, mentions_bot: bool) -> (r: bool)
        requires
            self.wf(),
        ensures
            r == (is_direct || starts_with(body@, self.prefix_view()) || contains_seq(body@, self.bot_view())
                || mentions_bot),
    {
        if is_direct {
            return true;
        }
        let v = chars_of(body);
        let p = chars_of(self.command_prefix.as_str());
        proof {
            assert(v@.skip(0) =~= v@);
        }
        matches_at(&v, 0, &p) || self.mentions_in_text(body) || mentions_bot
    }

    /// Decides what to do with a room message.
    ///
    /// Messages of the bot itself are ignored; the reset command (the
    /// prefix followed by `reset`, alone in the message) clears the
    /// session's history; other commands go to the command gateway; otherwise the bot answers in direct chats always and in
    /// group chats only when mentioned (textually or through the mentions
    /// field).  Direct chats use the sender as session, group chats the
    /// room.  Text is answered by chat (with tools, streamed, or in one
    /// reply, as configured); images go to the vision model when enabled.
    pub fn plan(
        &self,
        sender: &str,
        room_id: &str,
        is_direct: bool,
        mentions_bot: bool,
        is_command: bool,
        body: &str,
        kind: MessageKind,
    ) -> (r: MessagePlan)
        requires
            self.wf(),
        ensures
            plan_view(r) == self.plan_spec(
                sender@,
                room_id@,
                is_direct,
                mentions_bot,
                is_command,
                body@,
                kind,
            ),
    {
        if str_eq(sender, self.bot_user_id.as_str()) {
            return MessagePlan::Ignore;
        }
        let session_id = if is_direct {
            owned(sender)
        } else {
            owned(room_id)
        };
        if is_command {
            let mut reset = owned(self.command_prefix.as_str());
            push_str(&mut reset, "reset");
            proof {
                reveal_strlit("reset");
            }
            let trimmed = trim_string(body);
            if str_eq(trimmed.as_str(), reset.as_str()) {
                return MessagePlan::Reset { session_id };
            }
            return MessagePlan::Command;
        }
        let should_respond = is_direct || self.mentions_in_text(body) || mentions_bot;
        if !should_respond {
            return MessagePlan::Ignore;
        }
        match kind {
            MessageKind::Text => {
                let prompt = self.extract_message(body);
                let mode = if self.tools_enabled {
                    ChatMode::Tools { fallback_streaming: self.streaming_enabled }
                } else if self.streaming_enabled {
                    ChatMode::Streaming
                } else {
                    ChatMode::Normal
                };
                MessagePlan::Chat { session_id, prompt, mode }
            },
            MessageKind::Image => {
                if self.vision_enabled {
                    MessagePlan::Image { session_id }
                } else {
                    MessagePlan::Ignore
                }
            },
            MessageKind::Other => MessagePlan::Ignore,
        }
    }
}


/// The prompt for an image: its caption, or a request to describe it when
/// the caption is blank.
pub open spec fn image_prompt_spec(caption: Seq<char>) -> Seq<char> {
    if trim(caption).len() == 0 {
        "请描述这张图片的内容。"@
    } else {
        caption
    }
}

/// The prompt for an image (see [`image_prompt_spec`]).
pub fn image_prompt(caption: &str) -> (r: String)
    ensures
        r@ == image_prompt_spec(caption@),
{
    let v = chars_of(caption);
    let (a, b) = trim_bounds(&v);
    if a == b {
        owned("请描述这张图片的内容。")
    } else {
        owned(caption)
    }
}

/// `{text}{detail}`: the notices the bot sends when a step fails, such as
/// `AI 服务暂时不可用: ` or `图片处理失败: ` followed by the error.
pub fn failure_notice(text: &str, detail: &str) -> (r: String)
    ensures
        r@ == text@ + detail@,
{
    let mut r = owned(text);
    crate::text::push_str(&mut r, detail);
    r
}

/// Direct chats keep one history per user and group rooms one per room
/// (for chat and for the reset command alike):
/// a chat reply in a direct chat is always given, under the sender's
/// session, and in a group room it uses the room's session. The bot never
/// answers its own messages.
pub proof fn law_session_per_user_or_room(
    rules: MessageRules,
    sender: Seq<char>,
    room_id: Seq<char>,
    is_direct: bool,
    mentions_bot: bool,
    body: Seq<char>,
)
    ensures
        sender != rules.bot_view() && is_direct ==> rules.plan_spec(
            sender,
            room_id,
            is_direct,
            mentions_bot,
            false,
            body,
            MessageKind::Text,
        ) is Chat,
        rules.plan_spec(sender, room_id, is_direct, mentions_bot, false, body, MessageKind::Text) matches PlanView::Chat(
            s,
            _,
            _,
        ) ==> s == (if is_direct {
            sender
        } else {
            room_id
        }),
        forall|kind: MessageKind|
            #[trigger] rules.plan_spec(sender, room_id, is_direct, mentions_bot, true, body, kind) matches PlanView::Reset(s)
                ==> s == (if is_direct {
                sender
            } else {
                room_id
            }),
        forall|is_command: bool, kind: MessageKind| #[trigger] rules.plan_spec(
            rules.bot_view(),
            room_id,
            is_direct,
            mentions_bot,
            is_command,
            body,
            kind,
        ) == PlanView::Ignore,
{
}

/// A message that names the bot is answered: in a group room, a text from
/// another user that mentions the bot (through the mentions field or in its
/// text) is answered by chat under the room's session, and an image that
/// does so goes to the vision model under the room's session when vision is
/// on. A group text that neither mentions the bot nor is a command is not
/// answered.
pub proof fn law_mentioned_in_group_is_answered(
    rules: MessageRules,
    sender: Seq<char>,
    room_id: Seq<char>,
    mentions_bot: bool,
    body: Seq<char>,
)
    requires
        sender != rules.bot_view(),
    ensures
        (rules.plan_spec(sender, room_id, false, true, false, body, MessageKind::Text) matches PlanView::Chat(
            s,
            _,
            _,
        ) && s == room_id),
        rules.vision() ==> rules.plan_spec(
            sender,
            room_id,
            false,
            true,
            false,
            body,
            MessageKind::Image,
        ) == PlanView::Image(room_id),
        contains_seq(body, rules.bot_view()) ==> (rules.plan_spec(
            sender,
            room_id,
            false,
            mentions_bot,
            false,
            body,
            MessageKind::Text,
        ) matches PlanView::Chat(s, _, _) && s == room_id),
        !mentions_bot && !contains_seq(body, rules.bot_view()) ==> rules.plan_spec(
            sender,
            room_id,
            false,
            mentions_bot,
            false,
            body,
            MessageKind::Text,
        ) == PlanView::Ignore,
{
}

proof fn lemma_replace_absent(s: Seq<char>, pat: Seq<char>, rep: Seq<char>)
    requires
        !contains_seq(s, pat),
    ensures
        replace_all(s, pat, rep) == s,
    decreases s.len(),
{
    if s.len() == 0 || pat.len() == 0 {
    } else if starts_with(s, pat) {
        assert(s.subrange(0, pat.len() as int) == s.take(pat.len() as int));
        assert(s.subrange(0, 0 + pat.len() as int) == pat);
    } else {
        let t = s.drop_first();
        if contains_seq(t, pat) {
            let i = choose|i: int| 0 <= i <= t.len() - pat.len() && #[trigger] t.subrange(i, i + pat.len()) == pat;
            assert(s.subrange(i + 1, i + 1 + pat.len()) =~= t.subrange(i, i + pat.len()));
        }
        lemma_replace_absent(t, pat, rep);
        assert(seq![s[0]] + t =~= s);
    }
}

/// What an answered message leads to. A command message is a reset when it
/// is the prefix followed by `reset` and nothing else (surrounding blanks
/// aside), and goes to the command gateway otherwise. Any other text is
/// answered by chat under the session of the message, in the mode the
/// configuration asks for (tool calls falling back to streaming or a single
/// reply, else streaming, else a single reply); its prompt is the text
/// itself, trimmed, when it neither starts with the prefix nor names the
/// bot, and the text after the prefix, trimmed, when it starts with the
/// prefix and does not name the bot. An image is analysed when vision is
/// on and ignored otherwise; other kinds of message are ignored.
pub proof fn law_what_a_message_leads_to(
    rules: MessageRules,
    sender: Seq<char>,
    room_id: Seq<char>,
    is_direct: bool,
    mentions_bot: bool,
    body: Seq<char>,
)
    requires
        sender != rules.bot_view(),
        is_direct || mentions_bot,
    ensures
        ({
            let session = if is_direct {
                sender
            } else {
                room_id
            };
            &&& trim(body) == rules.prefix_view() + "reset"@ ==> rules.plan_spec(
                sender,
                room_id,
                is_direct,
                mentions_bot,
                true,
                body,
                MessageKind::Text,
            ) == PlanView::Reset(session)
            &&& trim(body) != rules.prefix_view() + "reset"@ ==> rules.plan_spec(
                sender,
                room_id,
                is_direct,
                mentions_bot,
                true,
                body,
                MessageKind::Text,
            ) == PlanView::Command
            &&& (rules.plan_spec(sender, room_id, is_direct, mentions_bot, false, body, MessageKind::Text) matches PlanView::Chat(
                s,
                p,
                m,
            ) && s == session && (rules.tools() ==> m == ChatMode::Tools {
                fallback_streaming: rules.streaming(),
            }) && (!rules.tools() && rules.streaming() ==> m == ChatMode::Streaming) && (!rules.tools()
                && !rules.streaming() ==> m == ChatMode::Normal) && (!starts_with(body, rules.prefix_view())
                && !contains_seq(body, rules.bot_view()) ==> p == trim(body)))
            &&& rules.plan_spec(sender, room_id, is_direct, mentions_bot, false, body, MessageKind::Image) == (if rules.vision() {
                PlanView::Image(session)
            } else {
                PlanView::Ignore
            })
            &&& rules.plan_spec(sender, room_id, is_direct, mentions_bot, false, body, MessageKind::Other)
                == PlanView::Ignore
        }),
        starts_with(body, rules.prefix_view()) && !contains_seq(body.skip(rules.prefix_view().len() as int), rules.bot_view())
            ==> (rules.plan_spec(sender, room_id, is_direct, mentions_bot, false, body, MessageKind::Text) matches PlanView::Chat(
            _,
            p,
            _,
        ) && p == trim(body.skip(rules.prefix_view().len() as int))),
{
    if !starts_with(body, rules.prefix_view()) && !contains_seq(body, rules.bot_view()) {
        lemma_replace_absent(body, rules.bot_view(), Seq::empty());
    }
    if starts_with(body, rules.prefix_view()) && !contains_seq(
        body.skip(rules.prefix_view().len() as int),
        rules.bot_view(),
    ) {
        lemma_replace_absent(body.skip(rules.prefix_view().len() as int), rules.bot_view(), Seq::empty());
    }
}

} // verus!
